//! Mock HTTP service
use crate::headers::Headers;
use crate::mock_set::{first_match, same_responses, MockSet};
use crate::request::{Method, Request};
use crate::response::{Response, ResponseView};
use crate::service::{body_frames, frame_views, frames_of_body, Exchange, Frame, FrameView, Reply, ReplyView};
use crate::status::StatusCode;
use crate::text::bytes_to_vec;
use vstd::prelude::*;
use vstd::string::StringExecFns;
use vstd::utf8::encode_utf8;

verus! {

/// The methods that a service answers unless it is told otherwise.
pub open spec fn default_allowed() -> Seq<Method> {
    seq![Method::GET, Method::POST, Method::PUT, Method::HEAD, Method::DELETE]
}

/// Whether a method is on the list of allowed methods. A method that is
/// none of the nine standard ones, given as `None`, is on no list.
pub open spec fn is_allowed(allowed: Seq<Method>, method: Option<Method>) -> bool {
    method is Some && allowed.contains(method->Some_0)
}

/// The names of the allowed methods, separated by a comma and a space.
pub open spec fn allow_text(allowed: Seq<Method>) -> Seq<char>
    decreases allowed.len(),
{
    if allowed.len() == 0 {
        Seq::empty()
    } else if allowed.len() == 1 {
        allowed[0].spec_name()
    } else {
        allow_text(allowed.drop_last()) + ", "@ + allowed.last().spec_name()
    }
}

/// The bytes of the text that says that no mock applies.
pub open spec fn not_found_text() -> Seq<u8> {
    encode_utf8("mock not found"@)
}

/// The bytes of a response's message; none where it has no message.
pub open spec fn message_bytes(response: ResponseView) -> Seq<u8> {
    match response.message {
        Some(m) => encode_utf8(m),
        None => Seq::empty(),
    }
}

/// Whether a status is in 400..600.
pub open spec fn is_error_status(status: u16) -> bool {
    400 <= status < 600
}

/// The complete reply that carries a response: its status and headers, and
/// as body the response's body, or its message where the status is an error
/// and there is a message.
pub open spec fn unary_reply(response: ResponseView) -> ReplyView {
    ReplyView {
        status: response.status,
        headers: response.headers,
        body: if is_error_status(response.status) && response.message is Some {
            message_bytes(response)
        } else {
            response.body
        },
    }
}

/// The reply that says that no mock applies: status 404 with the text
/// "mock not found".
pub open spec fn not_found_reply() -> ReplyView {
    ReplyView { status: 404, headers: Seq::empty(), body: not_found_text() }
}

/// The reply to a request whose method is not allowed: status 405 with the
/// allowed methods in the header `allow`.
pub open spec fn method_not_allowed_reply(allowed: Seq<Method>) -> ReplyView {
    ReplyView { status: 405, headers: seq![("allow"@, allow_text(allowed))], body: Seq::empty() }
}

/// With the default list the header `allow` reads
/// "GET, POST, PUT, HEAD, DELETE".
pub proof fn lemma_default_allow_text()
    ensures
        allow_text(default_allowed()) == "GET, POST, PUT, HEAD, DELETE"@,
{
    reveal_strlit("GET");
    reveal_strlit("POST");
    reveal_strlit("PUT");
    reveal_strlit("HEAD");
    reveal_strlit("DELETE");
    reveal_strlit(", ");
    reveal_strlit("GET, POST, PUT, HEAD, DELETE");
    let all = default_allowed();
    let four = all.drop_last();
    let three = four.drop_last();
    let two = three.drop_last();
    let one = two.drop_last();
    assert(allow_text(one) =~= "GET"@);
    assert(allow_text(two) =~= "GET"@ + ", "@ + "POST"@);
    assert(allow_text(three) =~= allow_text(two) + ", "@ + "PUT"@);
    assert(allow_text(four) =~= allow_text(three) + ", "@ + "HEAD"@);
    assert(allow_text(all) =~= allow_text(four) + ", "@ + "DELETE"@);
    assert(allow_text(all) =~= "GET, POST, PUT, HEAD, DELETE"@);
}

/// The frames in which a response is sent on a stream that is open: the
/// data frames of its body, then, where the status is an error, one data
/// frame with the message, then the headers as trailers.
pub open spec fn stream_frames(response: ResponseView, frames: Seq<Seq<u8>>) -> Seq<FrameView> {
    body_frames(frames) + (if is_error_status(response.status) {
        seq![FrameView::Data(message_bytes(response))]
    } else {
        Seq::empty()
    }) + seq![FrameView::Trailers(response.headers)]
}

/// The frames that end a stream on which nothing matched: one data frame
/// with the text "mock not found". The status of the response cannot
/// change any more once its head is sent.
pub open spec fn not_found_frames() -> Seq<FrameView> {
    seq![FrameView::Data(not_found_text())]
}

/// What to do when the body of a request has ended.
#[derive(Debug)]
pub enum StreamEnd {
    /// Some chunk matched: there is nothing more to send.
    Done,
    /// Nothing matched and the head of the response is not sent yet: answer
    /// with this reply.
    Reply(Reply),
    /// Nothing matched and the head of the response is sent: end the body
    /// with these frames.
    Frames(Vec<Frame>),
}

/// Mock HTTP service.
#[derive(Debug)]
pub struct HttpMockService {
    /// The mocks that requests are tried against.
    pub mocks: MockSet,
    /// The methods that the service answers.
    pub allowed: Vec<Method>,
}

impl HttpMockService {
    /// Creates the service for a set of mocks, with the default list of
    /// allowed methods.
    pub fn new(mocks: MockSet) -> (r: HttpMockService)
        ensures
            r.mocks == mocks,
            r.allowed@ == default_allowed(),
    {
        let mut allowed: Vec<Method> = Vec::new();
        allowed.push(Method::GET);
        allowed.push(Method::POST);
        allowed.push(Method::PUT);
        allowed.push(Method::HEAD);
        allowed.push(Method::DELETE);
        assert(allowed@ =~= default_allowed());
        HttpMockService { mocks, allowed }
    }

    /// Sets the list of allowed methods.
    pub fn with_allowed(self, allowed: Vec<Method>) -> (r: HttpMockService)
        ensures
            r.mocks == self.mocks,
            r.allowed == allowed,
    {
        let mut r = self;
        r.allowed = allowed;
        r
    }

    /// Tells whether the service answers requests with this method. A
    /// method that is none of the nine standard ones is given as `None`.
    pub fn allows(&self, method: Option<Method>) -> (r: bool)
        ensures
            r == is_allowed(self.allowed@, method),
    {
        match method {
            Some(m) => {
                let mut i: usize = 0;
                while i < self.allowed.len()
                    invariant
                        i <= self.allowed.len(),
                        method == Some(m),
                        forall|j: int| 0 <= j < i ==> self.allowed@[j] != m,
                    decreases self.allowed.len() - i,
                {
                    if self.allowed[i] == m {
                        assert(self.allowed@[i as int] == m);
                        return true;
                    }
                    i += 1;
                }
                false
            },
            None => false,
        }
    }

    /// Returns the text of the header `allow`: the names of the allowed
    /// methods, separated by a comma and a space.
    pub fn allow_header(&self) -> (r: String)
        ensures
            r@ == allow_text(self.allowed@),
    {
        let mut out = String::new();
        let mut i: usize = 0;
        while i < self.allowed.len()
            invariant
                i <= self.allowed.len(),
                out@ == allow_text(self.allowed@.subrange(0, i as int)),
            decreases self.allowed.len() - i,
        {
            let ghost before = self.allowed@.subrange(0, i as int);
            let ghost after = self.allowed@.subrange(0, i as int + 1);
            proof {
                assert(after.drop_last() =~= before);
                assert(after.last() == self.allowed@[i as int]);
            }
            if i > 0 {
                out.append(", ");
            }
            out.append(self.allowed[i].as_str());
            assert(out@ =~= allow_text(after));
            i += 1;
        }
        assert(self.allowed@.subrange(0, i as int) =~= self.allowed@);
        out
    }

    /// Screens a request by its method: `None` lets it pass, else the reply
    /// is the rejection.
    pub fn screen(&self, method: Option<Method>) -> (r: Option<Reply>)
        ensures
            is_allowed(self.allowed@, method) <==> r is None,
            r is Some ==> r->Some_0@ == method_not_allowed_reply(self.allowed@),
    {
        if self.allows(method) {
            return None;
        }
        let mut headers = Headers::new();
        let allow = self.allow_header();
        headers.insert("allow", allow.as_str());
        proof {
            reveal_strlit("allow");
            assert(crate::text::ascii_lower("allow"@) =~= "allow"@);
            assert(headers@ =~= seq![("allow"@, allow_text(self.allowed@))]);
        }
        Some(Reply { status: StatusCode::method_not_allowed(), headers, body: Vec::new() })
    }

    /// Builds the complete reply that carries a response.
    pub fn reply_for(response: &Response) -> (r: Reply)
        ensures
            r@ == unary_reply(response@),
    {
        let body = match response.message() {
            Some(m) => {
                if response.is_error() {
                    bytes_to_vec(m.as_bytes())
                } else {
                    response.body.as_bytes()
                }
            },
            None => response.body.as_bytes(),
        };
        Reply { status: response.status, headers: response.headers.duplicate(), body }
    }

    /// Builds the reply that says that no mock applies.
    pub fn not_found() -> (r: Reply)
        ensures
            r@ == not_found_reply(),
    {
        Reply {
            status: StatusCode::not_found(),
            headers: Headers::new(),
            body: bytes_to_vec("mock not found".as_bytes()),
        }
    }

    /// Answers a request whose body is complete: tries it once against the
    /// mocks and replies with the response of the first mock that applies,
    /// whose match is counted, or with 404 where none applies.
    pub fn respond(&mut self, request: &Request) -> (r: Reply)
        ensures
            final(self).mocks.wf(),
            same_responses(final(self).mocks.entries(), old(self).mocks.entries()),
            match first_match(old(self).mocks@, request@) {
                Some(i) => {
                    &&& r@ == unary_reply(old(self).mocks@[i].response)
                    &&& final(self).mocks@ == old(self).mocks@.update(
                        i,
                        old(self).mocks@[i].counted(),
                    )
                },
                None => r@ == not_found_reply() && final(self).mocks@ == old(self).mocks@,
            },
    {
        match self.mocks.match_to_response(request) {
            Some(response) => HttpMockService::reply_for(&response),
            None => HttpMockService::not_found(),
        }
    }

    /// Builds the frames in which a response is sent on an open stream.
    pub fn frames_for(response: &Response) -> (r: Vec<Frame>)
        ensures
            frame_views(r@) == stream_frames(response@, response.frames()),
    {
        let mut out = frames_of_body(&response.body);
        let ghost data = frame_views(out@);
        if response.is_error() {
            let message = match response.message() {
                Some(m) => bytes_to_vec(m.as_bytes()),
                None => Vec::new(),
            };
            out.push(Frame::Data(message));
            assert(frame_views(out@) =~= data + seq![FrameView::Data(message_bytes(response@))]);
        } else {
            assert(frame_views(out@) =~= data + Seq::<FrameView>::empty());
        }
        let ghost before = frame_views(out@);
        out.push(Frame::Trailers(response.headers.duplicate()));
        assert(frame_views(out@) =~= before + seq![FrameView::Trailers(response@.headers)]);
        out
    }

    /// Takes in a chunk of a request body that arrives in pieces and
    /// returns the frames to send now: those of the response of the first
    /// mock that applies to the bytes gathered so far, or none.
    pub fn on_chunk(&mut self, exchange: &mut Exchange, chunk: &[u8]) -> (r: Vec<Frame>)
        ensures
            final(self).mocks.wf(),
            same_responses(final(self).mocks.entries(), old(self).mocks.entries()),
            final(exchange)@.request == old(exchange)@.attempt(chunk@),
            match first_match(old(self).mocks@, old(exchange)@.attempt(chunk@)) {
                Some(i) => {
                    &&& frame_views(r@) == stream_frames(
                        old(self).mocks@[i].response,
                        old(self).mocks.entries()[i].response.frames(),
                    )
                    &&& final(self).mocks@ == old(self).mocks@.update(
                        i,
                        old(self).mocks@[i].counted(),
                    )
                    &&& final(exchange)@.buf == Seq::<u8>::empty()
                    &&& final(exchange)@.matched
                },
                None => {
                    &&& r@.len() == 0
                    &&& final(self).mocks@ == old(self).mocks@
                    &&& final(exchange)@.buf == old(exchange)@.buf + chunk@
                    &&& final(exchange)@.matched == old(exchange)@.matched
                },
            },
    {
        match exchange.accept_chunk(&mut self.mocks, chunk) {
            Some(response) => {
                proof {
                    crate::mock_set::lemma_first_match(
                        old(self).mocks@,
                        old(exchange)@.attempt(chunk@),
                    );
                }
                HttpMockService::frames_for(&response)
            },
            None => Vec::new(),
        }
    }

    /// Decides how an exchange ends when the request body has ended. Where
    /// some chunk matched nothing is left to do. Where none did, the answer
    /// is 404 as long as the head of the response is not sent; once it is
    /// sent the status cannot change, and the body ends with the text that
    /// says that no mock applies.
    pub fn finish(exchange: &Exchange, head_sent: bool) -> (r: StreamEnd)
        ensures
            exchange@.matched ==> r is Done,
            !exchange@.matched && !head_sent ==> r is Reply && r->Reply_0@ == not_found_reply(),
            !exchange@.matched && head_sent ==> r is Frames && frame_views(r->Frames_0@)
                == not_found_frames(),
    {
        if exchange.matched {
            StreamEnd::Done
        } else if head_sent {
            StreamEnd::Frames(HttpMockService::on_end(exchange))
        } else {
            StreamEnd::Reply(HttpMockService::not_found())
        }
    }

    /// Returns the frames to send when the request body has ended and the
    /// head of the response is sent: none where some chunk matched, else
    /// the text that says that no mock applies.
    pub fn on_end(exchange: &Exchange) -> (r: Vec<Frame>)
        ensures
            exchange@.matched ==> r@.len() == 0,
            !exchange@.matched ==> frame_views(r@) == not_found_frames(),
    {
        let mut out: Vec<Frame> = Vec::new();
        if !exchange.matched {
            out.push(Frame::Data(bytes_to_vec("mock not found".as_bytes())));
            assert(frame_views(out@) =~= not_found_frames());
        }
        out
    }
}

} // verus!
