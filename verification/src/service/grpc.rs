//! Mock gRPC service
use crate::headers::{has_name, insert_pair, lookup, without_name, HeaderPair, Headers};
use crate::mock_set::{first_match, same_responses, MockSet};
use crate::request::Method;
use crate::response::{Response, ResponseView};
use crate::service::{body_frames, frame_views, frames_of_body, Exchange, Frame, FrameView, Reply, ReplyView};
use crate::status::{grpc_code_of, Code, StatusCode};
use crate::text::{ascii_lower, str_starts_with};
use vstd::prelude::*;

verus! {

/// The list with the header of this name set to this value: every header
/// of the name is taken out and the new one is added at the end.
pub open spec fn set_header(s: Seq<HeaderPair>, name: Seq<char>, value: Seq<char>) -> Seq<
    HeaderPair,
> {
    insert_pair(without_name(s, ascii_lower(name)), (name, value))
}

/// Whether the headers name a gRPC content type: the first `content-type`
/// header starts with "application/grpc".
pub open spec fn is_grpc_content(headers: Seq<HeaderPair>) -> bool {
    match lookup(headers, "content-type"@) {
        Some(v) => "application/grpc"@.is_prefix_of(v),
        None => false,
    }
}

/// The reply to a request whose method is not POST: status 405 with the
/// header `allow: POST`.
pub open spec fn method_not_allowed_reply() -> ReplyView {
    ReplyView { status: 405, headers: seq![("allow"@, "POST"@)], body: Seq::empty() }
}

/// The reply to a request without a gRPC content type: status 415 with
/// the header `accept-post: application/grpc`.
pub open spec fn unsupported_media_type_reply() -> ReplyView {
    ReplyView {
        status: 415,
        headers: seq![("accept-post"@, "application/grpc"@)],
        body: Seq::empty(),
    }
}

/// The trailers that end a response: the response's headers, with
/// `grpc-status` set to the number of the code that the status maps to,
/// and `grpc-message` set to the message where there is one.
pub open spec fn grpc_trailers(response: ResponseView) -> Seq<HeaderPair> {
    let with_status = set_header(
        response.headers,
        "grpc-status"@,
        grpc_code_of(response.status).spec_header_value(),
    );
    match response.message {
        Some(m) => set_header(with_status, "grpc-message"@, m),
        None => with_status,
    }
}

/// The frames in which a response is sent: the data frames of its body,
/// then the trailers. The trailers are sent whether or not there is data.
pub open spec fn stream_frames(response: ResponseView, frames: Seq<Seq<u8>>) -> Seq<FrameView> {
    body_frames(frames) + seq![FrameView::Trailers(grpc_trailers(response))]
}

/// The trailers that say that no mock applies: `grpc-status` 5, which is
/// `NotFound`, and `grpc-message` "mock not found".
pub open spec fn not_found_trailers() -> Seq<HeaderPair> {
    seq![("grpc-status"@, "5"@), ("grpc-message"@, "mock not found"@)]
}

/// The frames that end a stream on which nothing matched.
pub open spec fn not_found_frames() -> Seq<FrameView> {
    seq![FrameView::Trailers(not_found_trailers())]
}

proof fn lemma_lower_names()
    ensures
        ascii_lower("allow"@) == "allow"@,
        ascii_lower("accept-post"@) == "accept-post"@,
        ascii_lower("content-type"@) == "content-type"@,
        ascii_lower("grpc-status"@) == "grpc-status"@,
        ascii_lower("grpc-message"@) == "grpc-message"@,
        "grpc-status"@ != "grpc-message"@,
{
    reveal_strlit("allow");
    reveal_strlit("accept-post");
    reveal_strlit("content-type");
    reveal_strlit("grpc-status");
    reveal_strlit("grpc-message");
    assert(ascii_lower("allow"@) =~= "allow"@);
    assert(ascii_lower("accept-post"@) =~= "accept-post"@);
    assert(ascii_lower("content-type"@) =~= "content-type"@);
    assert(ascii_lower("grpc-status"@) =~= "grpc-status"@);
    assert(ascii_lower("grpc-message"@) =~= "grpc-message"@);
    assert("grpc-status"@.len() != "grpc-message"@.len());
}

/// Sets a header: takes out every header of the name and adds the new one.
fn put_header(headers: &mut Headers, name: &str, value: &str)
    ensures
        final(headers)@ == set_header(old(headers)@, name@, value@),
{
    headers.remove(name);
    headers.insert(name, value);
}

/// Returns the trailers that say that no mock applies.
pub fn mock_not_found_trailer() -> (r: Headers)
    ensures
        r@ == not_found_trailers(),
{
    let mut headers = Headers::new();
    headers.insert("grpc-status", Code::NotFound.to_header_value());
    let ghost first = headers@;
    headers.insert("grpc-message", "mock not found");
    proof {
        lemma_lower_names();
        assert(first =~= seq![("grpc-status"@, "5"@)]);
        assert(!first.contains(("grpc-message"@, "mock not found"@))) by {
            if first.contains(("grpc-message"@, "mock not found"@)) {
                let i = choose|i: int|
                    0 <= i < first.len() && first[i] == ("grpc-message"@, "mock not found"@);
                assert(first[i].0 == "grpc-status"@);
            }
        }
        assert(headers@ =~= not_found_trailers());
    }
    headers
}

/// Returns true if the first `content-type` header is exactly this one.
pub fn has_content_type(headers: &Headers, content_type: &str) -> (r: bool)
    ensures
        r == (lookup(headers@, "content-type"@) == Some(content_type@)),
{
    proof {
        lemma_lower_names();
    }
    match headers.get("content-type") {
        Some(v) => crate::text::str_eq(v.as_str(), content_type),
        None => false,
    }
}

/// Mock gRPC service.
#[derive(Debug)]
pub struct GrpcMockService {
    pub mocks: MockSet,
}

impl GrpcMockService {
    /// Creates the service for a set of mocks.
    pub fn new(mocks: MockSet) -> (r: GrpcMockService)
        ensures
            r.mocks == mocks,
    {
        GrpcMockService { mocks }
    }

    /// Tells whether the headers name a gRPC content type.
    pub fn accepts_content(headers: &Headers) -> (r: bool)
        ensures
            r == is_grpc_content(headers@),
    {
        proof {
            lemma_lower_names();
        }
        match headers.get("content-type") {
            Some(v) => str_starts_with(v.as_str(), "application/grpc"),
            None => false,
        }
    }

    /// Screens a request by its head: `None` lets it pass, else the reply
    /// is the rejection. A method other than POST is rejected with 405; a
    /// POST without a gRPC content type is rejected with 415.
    pub fn screen(method: Option<Method>, headers: &Headers) -> (r: Option<Reply>)
        ensures
            method != Some(Method::POST) ==> r is Some && r->Some_0@
                == method_not_allowed_reply(),
            method == Some(Method::POST) && !is_grpc_content(headers@) ==> r is Some
                && r->Some_0@ == unsupported_media_type_reply(),
            method == Some(Method::POST) && is_grpc_content(headers@) ==> r is None,
    {
        proof {
            lemma_lower_names();
        }
        let is_post = match method {
            Some(Method::POST) => true,
            _ => false,
        };
        if !is_post {
            let mut reply_headers = Headers::new();
            reply_headers.insert("allow", "POST");
            assert(reply_headers@ =~= seq![("allow"@, "POST"@)]);
            return Some(
                Reply {
                    status: StatusCode::method_not_allowed(),
                    headers: reply_headers,
                    body: Vec::new(),
                },
            );
        }
        if !GrpcMockService::accepts_content(headers) {
            let mut reply_headers = Headers::new();
            reply_headers.insert("accept-post", "application/grpc");
            assert(reply_headers@ =~= seq![("accept-post"@, "application/grpc"@)]);
            return Some(
                Reply {
                    status: StatusCode::unsupported_media_type(),
                    headers: reply_headers,
                    body: Vec::new(),
                },
            );
        }
        None
    }

    /// Builds the trailers that end a response.
    pub fn trailers_for(response: &Response) -> (r: Headers)
        ensures
            r@ == grpc_trailers(response@),
    {
        let mut trailers = response.headers.duplicate();
        put_header(&mut trailers, "grpc-status", response.status.as_grpc().to_header_value());
        match response.message() {
            Some(m) => {
                put_header(&mut trailers, "grpc-message", m);
            },
            None => {},
        }
        trailers
    }

    /// Builds the frames in which a response is sent.
    pub fn frames_for(response: &Response) -> (r: Vec<Frame>)
        ensures
            frame_views(r@) == stream_frames(response@, response.frames()),
    {
        let mut out = frames_of_body(&response.body);
        let ghost data = frame_views(out@);
        out.push(Frame::Trailers(GrpcMockService::trailers_for(response)));
        assert(frame_views(out@) =~= data + seq![FrameView::Trailers(grpc_trailers(response@))]);
        out
    }

    /// Takes in a chunk of a request body and returns the frames to send
    /// now: those of the response of the first mock that applies to the
    /// bytes gathered so far, or none.
    pub fn on_chunk(&mut self, exchange: &mut Exchange, chunk: &[u8]) -> (r: Vec<Frame>)
        ensures
            final(self).mocks.wf(),
            same_responses(final(self).mocks.entries(), old(self).mocks.entries()),
            final(exchange)@.request == old(exchange)@.attempt(chunk@),
            match first_match(old(self).mocks@, old(exchange)@.attempt(chunk@)) {
                Some(i) => {
                    &&& frame_views(r@) == stream_frames(
                        old(self).mocks@[i].response,
                        old(self).mocks.entries()[i].response.frames(),
                    )
                    &&& final(self).mocks@ == old(self).mocks@.update(
                        i,
                        old(self).mocks@[i].counted(),
                    )
                    &&& final(exchange)@.buf == Seq::<u8>::empty()
                    &&& final(exchange)@.matched
                },
                None => {
                    &&& r@.len() == 0
                    &&& final(self).mocks@ == old(self).mocks@
                    &&& final(exchange)@.buf == old(exchange)@.buf + chunk@
                    &&& final(exchange)@.matched == old(exchange)@.matched
                },
            },
    {
        match exchange.accept_chunk(&mut self.mocks, chunk) {
            Some(response) => GrpcMockService::frames_for(&response),
            None => Vec::new(),
        }
    }

    /// Returns the frames to send when the request body has ended: none
    /// where some chunk matched, else the trailers that say that no mock
    /// applies.
    pub fn on_end(exchange: &Exchange) -> (r: Vec<Frame>)
        ensures
            exchange@.matched ==> r@.len() == 0,
            !exchange@.matched ==> frame_views(r@) == not_found_frames(),
    {
        let mut out: Vec<Frame> = Vec::new();
        if !exchange.matched {
            out.push(Frame::Trailers(mock_not_found_trailer()));
            assert(frame_views(out@) =~= not_found_frames());
        }
        out
    }
}

/// The trailers of every response carry `grpc-status`.
pub proof fn lemma_trailers_have_status(response: ResponseView)
    ensures
        has_name(grpc_trailers(response), "grpc-status"@),
{
    lemma_lower_names();
    let value = grpc_code_of(response.status).spec_header_value();
    let with_status = set_header(response.headers, "grpc-status"@, value);
    crate::headers::lemma_insert_then_contains(
        without_name(response.headers, "grpc-status"@),
        ("grpc-status"@, value),
    );
    match response.message {
        Some(m) => {
            let i = choose|i: int|
                0 <= i < with_status.len() && (#[trigger] with_status[i]).0 == "grpc-status"@;
            let kept = without_name(with_status, "grpc-message"@);
            let keep = |e: HeaderPair| e.0 != "grpc-message"@;
            assert(keep(with_status[i]));
            with_status.lemma_filter_contains(keep, i);
            assert(kept.contains(with_status[i]));
            let k = choose|k: int| 0 <= k < kept.len() && kept[k] == with_status[i];
            let r = set_header(with_status, "grpc-message"@, m);
            assert(r[k] == kept[k]);
        },
        None => {},
    }
}

} // verus!
