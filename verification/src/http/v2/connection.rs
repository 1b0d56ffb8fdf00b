//! The stream state of an HTTP/2 connection, as a state machine: each frame
//! read from the peer updates the streams and yields what the connection has
//! to do next.

use super::flags;
use super::frame::{headers_view, Frame, FrameView};
use super::settings::Setting;
use super::stream::{new_stream, State, Stream, StreamView};
use crate::http::header::{spec_header_new, Header, HeaderView};
use crate::http::message::response::{Response, ResponseView};
use crate::http::status_code::spec_code;
use crate::text::decimal;
use crate::http::message::request::{
    empty_builder, header_acceptable, spec_add_header, spec_extend_body, RequestBuilder,
    RequestBuilderView,
};
use std::collections::HashMap;
use vstd::prelude::*;

verus! {

broadcast use vstd::std_specs::hash::group_hash_axioms;

/// What the connection does after a frame.
#[derive(Debug)]
pub enum Action {
    /// Read the next frame.
    Continue,
    /// Send this frame to the peer, then read the next frame.
    Send(Frame),
    /// The stream has ended: the builder holds its request.
    Complete { stream_id: u32, builder: RequestBuilder },
    /// The peer reset a stream: the connection reports `Error::StreamReset`.
    Reset,
}

/// An action seen as plain values.
pub enum ActionView {
    Continue,
    Send(FrameView),
    Complete { stream_id: u32, builder: RequestBuilderView },
    Reset,
}

impl View for Action {
    type V = ActionView;

    open spec fn view(&self) -> ActionView {
        match self {
            Action::Continue => ActionView::Continue,
            Action::Send(f) => ActionView::Send(f@),
            Action::Complete { stream_id, builder } => ActionView::Complete {
                stream_id: *stream_id,
                builder: builder@,
            },
            Action::Reset => ActionView::Reset,
        }
    }
}

/// The streams of a connection, by identifier.
#[derive(Debug)]
pub struct Connection {
    streams: HashMap<u32, Stream>,
}

impl View for Connection {
    type V = Map<u32, StreamView>;

    closed spec fn view(&self) -> Map<u32, StreamView> {
        self.streams@.map_values(|s: Stream| s@)
    }
}

/// The stream with an identifier, or a new one.
pub open spec fn stream_or_new(m: Map<u32, StreamView>, id: u32) -> StreamView {
    if m.contains_key(id) {
        m[id]
    } else {
        new_stream(id)
    }
}

/// The builder after taking header fields in order.
pub open spec fn spec_add_headers(b: RequestBuilderView, hs: Seq<HeaderView>) -> RequestBuilderView
    decreases hs.len(),
{
    if hs.len() == 0 {
        b
    } else {
        spec_add_header(spec_add_headers(b, hs.drop_last()), hs.last())
    }
}

/// The SETTINGS frame that acknowledges the peer's settings.
pub open spec fn settings_ack() -> FrameView {
    FrameView::Settings { ack: flags::ACK, settings: Seq::empty() }
}

/// The frames the connection takes: a HEADERS frame's `:method` fields must
/// name methods.
pub open spec fn frame_acceptable(f: FrameView) -> bool {
    match f {
        FrameView::Headers { stream_id: _, flags: _, items } => forall|i: int|
            0 <= i < items.len() ==> header_acceptable(#[trigger] items[i]),
        _ => true,
    }
}

/// The streams and the action after a frame.
///
/// DATA appends to the stream's body and HEADERS passes the fields to the
/// stream's request builder (the stream is created when it is new); with
/// END_STREAM the stream is closed (DATA) or half-closed by the peer
/// (HEADERS), and its request is handed out, leaving an empty builder.
/// RST_STREAM closes a known stream and resets the connection. SETTINGS
/// without ACK is answered with an empty SETTINGS frame with ACK; an
/// acknowledgement and WINDOW_UPDATE change nothing. PING is answered with
/// a PING with ACK that carries the same data.
pub open spec fn spec_on_frame(m: Map<u32, StreamView>, f: FrameView) -> (Map<u32, StreamView>, ActionView) {
    match f {
        FrameView::Data { stream_id, flags, data } => {
            let s = stream_or_new(m, stream_id);
            let b = RequestBuilderView { body: spec_extend_body(s.builder.body, data), ..s.builder };
            if flags & flags::END_STREAM != 0 {
                (
                    m.insert(stream_id, StreamView { state: State::Closed, builder: empty_builder(), ..s }),
                    ActionView::Complete { stream_id, builder: b },
                )
            } else {
                (m.insert(stream_id, StreamView { builder: b, ..s }), ActionView::Continue)
            }
        },
        FrameView::Headers { stream_id, flags, items } => {
            let s = stream_or_new(m, stream_id);
            let b = spec_add_headers(s.builder, items);
            if flags & flags::END_STREAM != 0 {
                (
                    m.insert(
                        stream_id,
                        StreamView { state: State::HalfClosedRemote, builder: empty_builder(), ..s },
                    ),
                    ActionView::Complete { stream_id, builder: b },
                )
            } else {
                (m.insert(stream_id, StreamView { builder: b, ..s }), ActionView::Continue)
            }
        },
        FrameView::RstStream { stream_id, error_code: _ } => {
            if m.contains_key(stream_id) {
                (m.insert(stream_id, StreamView { state: State::Closed, ..m[stream_id] }), ActionView::Reset)
            } else {
                (m, ActionView::Reset)
            }
        },
        FrameView::Settings { ack, settings: _ } => {
            if ack & flags::ACK != 0 {
                (m, ActionView::Continue)
            } else {
                (m, ActionView::Send(settings_ack()))
            }
        },
        FrameView::WindowUpdate { stream_id: _, increment: _ } => (m, ActionView::Continue),
        FrameView::Ping { ack: _, opaque_data } => (
            m,
            ActionView::Send(FrameView::Ping { ack: true, opaque_data }),
        ),
    }
}

impl Connection {
    /// A connection with no streams.
    pub fn new() -> (c: Connection)
        ensures
            c@ == Map::<u32, StreamView>::empty(),
    {
        let c = Connection { streams: HashMap::new() };
        assert(c@ =~= Map::<u32, StreamView>::empty());
        c
    }

    /// Whether the connection takes a frame: every `:method` field of a
    /// HEADERS frame names a method.
    pub fn accepts(frame: &Frame) -> (r: bool)
        ensures
            r == frame_acceptable(frame@),
    {
        match frame {
            Frame::Headers { stream_id: _, flags: _, items } => {
                let r = all_accepted(items);
                assert(frame@ is Headers && frame@->Headers_items == headers_view(items@));
                r
            },
            _ => true,
        }
    }

    /// Removes the stream with an identifier, or makes a new one.
    fn take_stream(&mut self, id: u32) -> (s: Stream)
        ensures
            s@ == stream_or_new(old(self)@, id),
            final(self)@ == old(self)@.remove(id),
    {
        let r = self.streams.remove(&id);
        proof {
            assert(self@ =~= old(self)@.remove(id));
        }
        match r {
            Some(s) => s,
            None => Stream::new(id),
        }
    }

    /// Puts a stream back under its identifier.
    fn put_stream(&mut self, id: u32, s: Stream)
        ensures
            final(self)@ == old(self)@.insert(id, s@),
    {
        self.streams.insert(id, s);
        assert(self@ =~= old(self)@.insert(id, s@));
    }

    /// Takes a frame from the peer: updates the streams and says what to do
    /// next (see `spec_on_frame`).
#[verifier::spinoff_prover]
    pub fn on_frame(&mut self, frame: Frame) -> (a: Action)
        requires
            frame_acceptable(frame@),
        ensures
            (final(self)@, a@) == spec_on_frame(old(self)@, frame@),
    {
        let ghost f = frame@;
        match frame {
            Frame::Data { stream_id, flags, data } => {
                let mut s = self.take_stream(stream_id);
                s.request_builder.extend_body(data.as_slice());
                if flags & flags::END_STREAM != 0 {
                    s.state = State::Closed;
                    let mut builder = RequestBuilder::new();
                    std::mem::swap(&mut builder, &mut s.request_builder);
                    self.put_stream(stream_id, s);
                    proof {
                        assert(self@ =~= spec_on_frame(old(self)@, f).0);
                    }
                    Action::Complete { stream_id, builder }
                } else {
                    self.put_stream(stream_id, s);
                    proof {
                        assert(self@ =~= spec_on_frame(old(self)@, f).0);
                    }
                    Action::Continue
                }
            },
            Frame::Headers { stream_id, flags, items } => {
                let mut s = self.take_stream(stream_id);
                let ghost hs = headers_view(items@);
                let ghost b0 = s.request_builder@;
                assert(f == FrameView::Headers { stream_id, flags, items: hs });
                assert(f is Headers && f->Headers_items == hs);
                assert(forall|i: int| 0 <= i < hs.len() ==> header_acceptable(#[trigger] hs[i]));
                let mut items = items;
                let mut rest: Vec<Header> = Vec::new();
                // Take the fields in order: reverse them once, then pop.
                while items.len() > 0
                    invariant
                        rest@.len() + items@.len() == hs.len(),
                        forall|j: int| 0 <= j < items@.len() ==> #[trigger] items@[j]@ == hs[j],
                        forall|j: int|
                            0 <= j < rest@.len() ==> #[trigger] rest@[j]@ == hs[hs.len() - 1 - j],
                    decreases items@.len(),
                {
                    let h = items.pop().unwrap();
                    rest.push(h);
                }
                let mut k: usize = 0;
                let n = rest.len();
                while rest.len() > 0
                    invariant
                        n == hs.len(),
                        k + rest@.len() == n,
                        forall|j: int|
                            0 <= j < rest@.len() ==> #[trigger] rest@[j]@ == hs[hs.len() - 1 - j],
                        forall|i: int| 0 <= i < hs.len() ==> header_acceptable(#[trigger] hs[i]),
                        s.request_builder@ == spec_add_headers(b0, hs.take(k as int)),
                        s@.id == stream_or_new(old(self)@, stream_id).id,
                        s@.state == stream_or_new(old(self)@, stream_id).state,
                    decreases rest@.len(),
                {
                    let h = rest.pop().unwrap();
                    assert(h@ == hs[k as int]);
                    s.request_builder.add_header(h);
                    assert(hs.take(k + 1).drop_last() =~= hs.take(k as int));
                    k = k + 1;
                }
                assert(hs.take(n as int) =~= hs);
                if flags & flags::END_STREAM != 0 {
                    s.state = State::HalfClosedRemote;
                    let mut builder = RequestBuilder::new();
                    std::mem::swap(&mut builder, &mut s.request_builder);
                    self.put_stream(stream_id, s);
                    proof {
                        assert(self@ =~= spec_on_frame(old(self)@, f).0);
                    }
                    Action::Complete { stream_id, builder }
                } else {
                    self.put_stream(stream_id, s);
                    proof {
                        assert(self@ =~= spec_on_frame(old(self)@, f).0);
                    }
                    Action::Continue
                }
            },
            Frame::RstStream { stream_id, error_code: _ } => {
                if self.streams.contains_key(&stream_id) {
                    let mut s = self.take_stream(stream_id);
                    s.state = State::Closed;
                    self.put_stream(stream_id, s);
                    proof {
                        assert(self@ =~= spec_on_frame(old(self)@, f).0);
                    }
                }
                Action::Reset
            },
            Frame::Settings { ack, items: _ } => {
                if ack & flags::ACK != 0 {
                    Action::Continue
                } else {
                    let items: Vec<Setting> = Vec::new();
                    assert(items@ =~= Seq::<Setting>::empty());
                    Action::Send(Frame::Settings { ack: flags::ACK, items })
                }
            },
            Frame::WindowUpdate { stream_id: _, increment: _ } => Action::Continue,
            Frame::Ping { ack: _, opaque_data } => Action::Send(Frame::Ping { ack: true, opaque_data }),
        }
    }

    /// The stream with an identifier, if the connection has seen it.
    pub fn stream(&self, id: u32) -> (r: Option<&Stream>)
        ensures
            match r {
                Some(s) => self@.contains_key(id) && self@[id] == s@,
                None => !self@.contains_key(id),
            },
    {
        self.streams.get(&id)
    }
}

/// The settings the server announces after the preface.
pub open spec fn server_settings_view() -> FrameView {
    FrameView::Settings {
        ack: 0,
        settings: seq![
            Setting::HeaderTableSize(0x4000),
            Setting::EnablePush(false),
            Setting::MaxConcurrentStreams(128),
            Setting::InitialWindowSize(0x80_0000),
            Setting::MaxFrameSize(0x4000),
            Setting::MaxHeaderListSize(0x1000),
        ],
    }
}

/// The SETTINGS frame the server sends after the preface: a header table
/// of 2^14 bytes, no server push, 128 concurrent streams, an initial window
/// of 2^23 bytes, frames of up to 2^14 bytes and header lists of up to 2^12
/// bytes.
pub fn server_settings() -> (f: Frame)
    ensures
        f@ == server_settings_view(),
{
    let mut items: Vec<Setting> = Vec::new();
    items.push(Setting::HeaderTableSize(0x4000));
    items.push(Setting::EnablePush(false));
    items.push(Setting::MaxConcurrentStreams(128));
    items.push(Setting::InitialWindowSize(0x80_0000));
    items.push(Setting::MaxFrameSize(0x4000));
    items.push(Setting::MaxHeaderListSize(0x1000));
    assert(items@ =~= server_settings_view()->Settings_settings);
    Frame::Settings { ack: 0, items }
}

/// Whether a frame is the SETTINGS frame a client must send first: not an
/// acknowledgement, and with at least one parameter.
pub fn is_client_settings(frame: &Frame) -> (r: bool)
    ensures
        r == (frame@ matches FrameView::Settings { ack, settings } && ack == 0 && settings.len() > 0),
{
    match frame {
        Frame::Settings { ack, items } => *ack == 0 && items.len() > 0,
        _ => false,
    }
}

/// Whether `add_header` takes every field of a list.
fn all_accepted(items: &Vec<Header>) -> (r: bool)
    ensures
        r == (forall|i: int|
            0 <= i < items@.len() ==> header_acceptable(#[trigger] headers_view(items@)[i])),
{
    let mut i: usize = 0;
    while i < items.len()
        invariant
            i <= items@.len(),
            forall|j: int| 0 <= j < i ==> header_acceptable(#[trigger] headers_view(items@)[j]),
        decreases items@.len() - i,
    {
        if !header_accepted(&items[i]) {
            assert(!header_acceptable(headers_view(items@)[i as int]));
            return false;
        }
        i = i + 1;
    }
    true
}

/// Whether `add_header` takes a field.
fn header_accepted(h: &Header) -> (r: bool)
    ensures
        r == header_acceptable(h@),
{
    proof {
        reveal_strlit(":method");
    }
    match h {
        Header::Pseudo { name, value } => {
            if crate::text::str_eq(name.as_str(), ":method") {
                crate::http::method::Method::parse(value.as_str()).is_ok()
            } else {
                true
            }
        },
        Header::Literal { name: _, value: _ } => true,
    }
}

/// The two frames that carry a response on a stream: a HEADERS frame that
/// ends the header block, with a `:status` field holding the code in decimal
/// in front of the response's fields, then a DATA frame that ends the
/// stream and carries the body (empty where there is none).
pub open spec fn spec_response_frames(stream_id: u32, r: ResponseView) -> (FrameView, FrameView) {
    (
        FrameView::Headers {
            stream_id,
            flags: flags::END_HEADERS,
            items: seq![spec_header_new(":status"@, decimal(spec_code(r.status_code) as nat))]
                + r.headers,
        },
        FrameView::Data {
            stream_id,
            flags: flags::END_STREAM,
            data: match r.body {
                Some(b) => b,
                None => Seq::empty(),
            },
        },
    )
}

/// The frames that send `response` on stream `stream_id` (see
/// `spec_response_frames`).
pub fn response_frames(stream_id: u32, response: Response) -> (fs: (Frame, Frame))
    ensures
        (fs.0@, fs.1@) == spec_response_frames(stream_id, response@),
{
    let ghost rv = response@;
    let code = response.status_code.to_string();
    let mut items: Vec<Header> = Vec::new();
    items.push(Header::new(":status", code.as_str()));
    let mut headers = response.headers;
    let ghost first = headers_view(items@);
    let ghost rest = headers_view(headers@);
    items.append(&mut headers);
    assert(headers_view(items@) =~= first + rest);
    assert(first =~= seq![spec_header_new(":status"@, decimal(spec_code(rv.status_code) as nat))]);
    assert(rest == rv.headers);
    let data = match response.body {
        Some(b) => b,
        None => Vec::new(),
    };
    proof {
        if rv.body is None {
            assert(data@ =~= Seq::<u8>::empty());
        }
    }
    (
        Frame::Headers { stream_id, flags: flags::END_HEADERS, items },
        Frame::Data { stream_id, flags: flags::END_STREAM, data },
    )
}

/// The stream that a frame belongs to; SETTINGS and PING frames belong to
/// the connection, which is stream 0.
pub open spec fn frame_stream(f: FrameView) -> u32 {
    match f {
        FrameView::Data { stream_id, .. } => stream_id,
        FrameView::Headers { stream_id, .. } => stream_id,
        FrameView::RstStream { stream_id, .. } => stream_id,
        FrameView::Settings { .. } => 0,
        FrameView::WindowUpdate { stream_id, .. } => stream_id,
        FrameView::Ping { .. } => 0,
    }
}

/// A frame changes no stream but its own: every other stream stays as it
/// was, and no stream appears or disappears but its own.
pub proof fn lemma_frame_touches_own_stream(m: Map<u32, StreamView>, f: FrameView, id: u32)
    requires
        id != frame_stream(f),
    ensures
        spec_on_frame(m, f).0.contains_key(id) == m.contains_key(id),
        m.contains_key(id) ==> spec_on_frame(m, f).0[id] == m[id],
{
}

/// Header fields leave the body of a builder as it was.
proof fn lemma_add_headers_body(b: RequestBuilderView, hs: Seq<HeaderView>)
    ensures
        spec_add_headers(b, hs).body == b.body,
    decreases hs.len(),
{
    if hs.len() > 0 {
        lemma_add_headers_body(b, hs.drop_last());
    }
}

/// A request that comes as a HEADERS frame without END_STREAM and then a
/// DATA frame with END_STREAM, on a stream the connection has not seen, is
/// handed out once the DATA frame arrives: the request that the header
/// fields build, with the data as its body. The HEADERS frame asks for
/// nothing, and the stream is closed afterwards.
pub proof fn lemma_request_from_frames(
    m: Map<u32, StreamView>,
    stream_id: u32,
    header_flags: u8,
    items: Seq<HeaderView>,
    data_flags: u8,
    data: Seq<u8>,
)
    requires
        !m.contains_key(stream_id),
        header_flags & flags::END_STREAM == 0,
        data_flags & flags::END_STREAM != 0,
    ensures
        ({
            let (m1, a1) = spec_on_frame(
                m,
                FrameView::Headers { stream_id, flags: header_flags, items },
            );
            let (m2, a2) = spec_on_frame(
                m1,
                FrameView::Data { stream_id, flags: data_flags, data },
            );
            &&& a1 == ActionView::Continue
            &&& a2 == ActionView::Complete {
                stream_id,
                builder: RequestBuilderView {
                    body: Some(data),
                    ..spec_add_headers(empty_builder(), items)
                },
            }
            &&& m2.contains_key(stream_id)
            &&& m2[stream_id].state == State::Closed
            &&& m2[stream_id].builder == empty_builder()
        }),
{
    lemma_add_headers_body(empty_builder(), items);
}

/// The body a stream's builder holds, with no body as empty.
pub open spec fn body_bytes(b: RequestBuilderView) -> Seq<u8> {
    match b.body {
        Some(d) => d,
        None => Seq::empty(),
    }
}

/// Law: every DATA frame appends its payload to the body of its stream's
/// request. Without END_STREAM the stream keeps the longer body and the
/// connection reads on; with END_STREAM the request is handed out with the
/// longer body.
pub proof fn lemma_data_appends_to_body(
    m: Map<u32, StreamView>,
    stream_id: u32,
    flags: u8,
    data: Seq<u8>,
)
    ensures
        ({
            let old_body = body_bytes(stream_or_new(m, stream_id).builder);
            let (m1, a) = spec_on_frame(m, FrameView::Data { stream_id, flags, data });
            &&& flags & flags::END_STREAM == 0 ==> a == ActionView::Continue && m1.contains_key(
                stream_id,
            ) && m1[stream_id].builder.body == Some(old_body + data)
            &&& flags & flags::END_STREAM != 0 ==> (a matches ActionView::Complete { stream_id: id, builder }
                && id == stream_id && builder.body == Some(old_body + data))
        }),
{
    assert(Seq::<u8>::empty() + data =~= data);
}

/// Law: a request sent as HEADERS without END_STREAM, then DATA `d1` without
/// END_STREAM, then DATA `d2` with END_STREAM, on a stream the connection has
/// not seen, is handed out on the last frame with the body `d1 + d2` and
/// the fields of the HEADERS frame.
pub proof fn lemma_request_body_in_order(
    m: Map<u32, StreamView>,
    stream_id: u32,
    header_flags: u8,
    items: Seq<HeaderView>,
    flags1: u8,
    d1: Seq<u8>,
    flags2: u8,
    d2: Seq<u8>,
)
    requires
        !m.contains_key(stream_id),
        header_flags & flags::END_STREAM == 0,
        flags1 & flags::END_STREAM == 0,
        flags2 & flags::END_STREAM != 0,
    ensures
        ({
            let (m1, a1) = spec_on_frame(m, FrameView::Headers { stream_id, flags: header_flags, items });
            let (m2, a2) = spec_on_frame(m1, FrameView::Data { stream_id, flags: flags1, data: d1 });
            let (m3, a3) = spec_on_frame(m2, FrameView::Data { stream_id, flags: flags2, data: d2 });
            &&& a1 == ActionView::Continue
            &&& a2 == ActionView::Continue
            &&& a3 == ActionView::Complete {
                stream_id,
                builder: RequestBuilderView {
                    body: Some(d1 + d2),
                    ..spec_add_headers(empty_builder(), items)
                },
            }
        }),
{
    lemma_add_headers_body(empty_builder(), items);
    let (m1, a1) = spec_on_frame(m, FrameView::Headers { stream_id, flags: header_flags, items });
    lemma_data_appends_to_body(m1, stream_id, flags1, d1);
    let (m2, a2) = spec_on_frame(m1, FrameView::Data { stream_id, flags: flags1, data: d1 });
    lemma_data_appends_to_body(m2, stream_id, flags2, d2);
    assert(Seq::<u8>::empty() + d1 =~= d1);
}

} // verus!
