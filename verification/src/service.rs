//! The decisions of the mock services.
//!
//! A service reads the head of a request, admits or rejects it, and then
//! either answers a complete request at once or follows the request's body
//! as it arrives: after each chunk it tries the bytes gathered so far
//! against the mocks, and on a match hands out the frames to send and
//! starts gathering anew. Reading and writing are left to the caller.
pub mod grpc;
pub mod http;

pub use grpc::GrpcMockService;
pub use http::HttpMockService;

use crate::body::Body;
use crate::headers::{HeaderPair, Headers};
use crate::mock_set::{first_match, same_responses, MockSet};
use crate::request::{Request, RequestView};
use crate::response::Response;
use crate::status::StatusCode;
use crate::text::bytes_to_vec;
use vstd::prelude::*;

verus! {

/// How many frames of a response may wait to be written. The stage that
/// matches blocks when as many frames wait.
pub const RESPONSE_QUEUE: usize = 32;

/// What a frame is, as plain values.
pub enum FrameView {
    Data(Seq<u8>),
    Trailers(Seq<HeaderPair>),
}

/// One unit of a streamed response: a block of data, or the trailers that
/// end the response.
#[derive(Debug)]
pub enum Frame {
    /// A block of body bytes, sent as one chunk.
    Data(Vec<u8>),
    /// The headers that follow the body.
    Trailers(Headers),
}

impl View for Frame {
    type V = FrameView;

    open spec fn view(&self) -> FrameView {
        match self {
            Frame::Data(bytes) => FrameView::Data(bytes@),
            Frame::Trailers(headers) => FrameView::Trailers(headers@),
        }
    }
}

/// The views of a list of frames.
pub open spec fn frame_views(frames: Seq<Frame>) -> Seq<FrameView> {
    Seq::new(frames.len(), |i: int| frames[i]@)
}

/// One data frame for each frame of a body, in order.
pub open spec fn data_frames(frames: Seq<Seq<u8>>) -> Seq<FrameView> {
    Seq::new(frames.len(), |i: int| FrameView::Data(frames[i]))
}

/// The data frames in which a body is sent: none for a body without bytes,
/// else one for each of its frames.
pub open spec fn body_frames(frames: Seq<Seq<u8>>) -> Seq<FrameView> {
    if crate::body::concat(frames).len() == 0 {
        Seq::empty()
    } else {
        data_frames(frames)
    }
}

/// A complete answer to a request: the head and the whole body.
#[derive(Debug)]
pub struct Reply {
    pub status: StatusCode,
    pub headers: Headers,
    pub body: Vec<u8>,
}

/// What a reply is, as plain values.
pub struct ReplyView {
    pub status: u16,
    pub headers: Seq<HeaderPair>,
    pub body: Seq<u8>,
}

impl View for Reply {
    type V = ReplyView;

    open spec fn view(&self) -> ReplyView {
        ReplyView { status: self.status@, headers: self.headers@, body: self.body@ }
    }
}

/// The state of one exchange whose request body arrives in chunks.
#[derive(Debug)]
pub struct Exchange {
    /// The head of the request, with the body that was tried last.
    pub request: Request,
    /// The bytes received since the last match.
    pub buf: Vec<u8>,
    /// Whether any chunk has led to a match.
    pub matched: bool,
}

/// What an exchange is, as plain values.
pub struct ExchangeView {
    pub request: RequestView,
    pub buf: Seq<u8>,
    pub matched: bool,
}

impl View for Exchange {
    type V = ExchangeView;

    open spec fn view(&self) -> ExchangeView {
        ExchangeView { request: self.request@, buf: self.buf@, matched: self.matched }
    }
}

impl ExchangeView {
    /// The request that is tried when a chunk arrives: the head with the
    /// bytes gathered so far and the chunk as its body.
    pub open spec fn attempt(self, chunk: Seq<u8>) -> RequestView {
        RequestView { body: self.buf + chunk, ..self.request }
    }
}

impl Exchange {
    /// Starts an exchange for a request head: no bytes gathered, nothing
    /// matched. Every chunk of the body, the first too, is then handed to
    /// `accept_chunk`.
    pub fn start(head: Request) -> (r: Exchange)
        ensures
            r.request == head,
            r@ == (ExchangeView { request: head@, buf: Seq::empty(), matched: false }),
    {
        Exchange { request: head, buf: Vec::new(), matched: false }
    }

    /// Takes in a chunk of the request body and tries the bytes gathered so
    /// far against the mocks. On a match the response of the first mock
    /// that applies is returned, its match is counted, and gathering starts
    /// anew; else the chunk is kept.
    pub fn accept_chunk(&mut self, mocks: &mut MockSet, chunk: &[u8]) -> (r: Option<Response>)
        ensures
            final(mocks).wf(),
            same_responses(final(mocks).entries(), old(mocks).entries()),
            final(self)@.request == old(self)@.attempt(chunk@),
            match first_match(old(mocks)@, old(self)@.attempt(chunk@)) {
                Some(i) => {
                    &&& r is Some
                    &&& r->Some_0@ == old(mocks)@[i].response
                    &&& r->Some_0.frames() == old(mocks).entries()[i].response.frames()
                    &&& final(mocks)@ == old(mocks)@.update(i, old(mocks)@[i].counted())
                    &&& final(self)@.buf == Seq::<u8>::empty()
                    &&& final(self)@.matched
                },
                None => {
                    &&& r is None
                    &&& final(mocks)@ == old(mocks)@
                    &&& final(self)@.buf == old(self)@.buf + chunk@
                    &&& final(self)@.matched == old(self)@.matched
                },
            },
    {
        let mut i: usize = 0;
        while i < chunk.len()
            invariant
                i <= chunk.len(),
                self.buf@ == old(self).buf@ + chunk@.subrange(0, i as int),
                self.request == old(self).request,
                self.matched == old(self).matched,
            decreases chunk.len() - i,
        {
            self.buf.push(chunk[i]);
            assert(self.buf@ =~= old(self).buf@ + chunk@.subrange(0, i as int + 1));
            i += 1;
        }
        assert(chunk@.subrange(0, i as int) =~= chunk@);
        self.request.body = bytes_to_vec(self.buf.as_slice());
        let found = mocks.match_to_response(&self.request);
        if found.is_some() {
            self.matched = true;
            self.buf.clear();
        }
        found
    }
}

/// Turns the body of a response into the data frames in which it is sent.
pub fn frames_of_body(body: &Body) -> (r: Vec<Frame>)
    ensures
        frame_views(r@) == body_frames(body.frames()),
{
    let mut out: Vec<Frame> = Vec::new();
    if body.is_empty() {
        assert(frame_views(out@) =~= body_frames(body.frames()));
        return out;
    }
    let chunks = body.chunks();
    let mut i: usize = 0;
    assert(frame_views(out@) =~= data_frames(body.frames()).subrange(0, 0));
    while i < chunks.len()
        invariant
            i <= chunks.len(),
            crate::body::frames_of(chunks@) == body.frames(),
            frame_views(out@) == data_frames(body.frames()).subrange(0, i as int),
        decreases chunks.len() - i,
    {
        let ghost before = frame_views(out@);
        assert(crate::body::frames_of(chunks@)[i as int] == chunks@[i as int]@);
        out.push(Frame::Data(bytes_to_vec(chunks[i].as_slice())));
        assert(frame_views(out@) =~= before.push(FrameView::Data(body.frames()[i as int])));
        assert(before.push(FrameView::Data(body.frames()[i as int])) =~= data_frames(
            body.frames(),
        ).subrange(0, i as int + 1));
        i += 1;
    }
    assert(crate::body::frames_of(chunks@).len() == chunks@.len());
    assert(data_frames(body.frames()).subrange(0, i as int) =~= data_frames(body.frames()));
    out
}

} // verus!
