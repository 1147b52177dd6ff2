//! Then
use crate::body::{frames_of, Body};
use crate::headers::{insert_pair, Headers};
use crate::response::{Response, ResponseView};
use crate::status::StatusCode;
use crate::wire::grpc_frame;
use vstd::prelude::*;
use vstd::string::StringExecFns;
use vstd::string::StringSliceAdditionalSpecFns;

verus! {

/// A response builder.
#[derive(Debug)]
pub struct Then {
    pub response: Response,
}

impl View for Then {
    type V = ResponseView;

    open spec fn view(&self) -> ResponseView {
        self.response@
    }
}

impl Then {
    /// The frames in which the body of the response is sent.
    pub open spec fn frames(&self) -> Seq<Seq<u8>> {
        self.response.body.frames()
    }

    /// Creates a builder for a response with status 200, no headers, no
    /// body and no message.
    pub fn new() -> (r: Then)
        ensures
            r.response.body == Body::Empty,
            r@ == (ResponseView {
                status: 200,
                headers: Seq::empty(),
                body: Seq::empty(),
                message: None,
            }),
    {
        Then { response: Response::new(Body::Empty) }
    }

    /// Returns the inner response.
    pub fn into_inner(self) -> (r: Response)
        ensures
            r == self.response,
    {
        self.response
    }

    /// Status code.
    pub fn status(self, status: StatusCode) -> (r: Then)
        ensures
            r.response.body == self.response.body,
            r@ == (ResponseView { status: status@, ..self@ }),
    {
        let mut r = self;
        r.response.status = status;
        r
    }

    /// Headers.
    pub fn headers(self, headers: Headers) -> (r: Then)
        ensures
            r.response.body == self.response.body,
            r@ == (ResponseView { headers: headers@, ..self@ }),
    {
        let mut r = self;
        r.response.headers = headers;
        r
    }

    /// Body.
    pub fn body(self, body: Body) -> (r: Then)
        ensures
            r.response.body == body,
            r@ == (ResponseView { body: body@, ..self@ }),
    {
        let mut r = self;
        r.response.body = body;
        r
    }

    /// Error message.
    pub fn message(self, message: &str) -> (r: Then)
        ensures
            r.response.body == self.response.body,
            r@ == (ResponseView { message: Some(message@), ..self@ }),
    {
        let mut r = self;
        r.response.message = Some(String::from_str(message));
        r
    }

    /// Empty body.
    pub fn empty(self) -> (r: Then)
        ensures
            r.response.body == Body::Empty,
            r@ == (ResponseView { body: Seq::empty(), ..self@ }),
    {
        self.body(Body::empty())
    }

    /// Raw bytes body.
    pub fn bytes(self, body: Vec<u8>) -> (r: Then)
        ensures
            r.response.body == Body::Full(body),
            r@ == (ResponseView { body: body@, ..self@ }),
    {
        self.body(Body::bytes(body))
    }

    /// Raw bytes streaming body: each message is one frame.
    pub fn bytes_stream(self, messages: Vec<Vec<u8>>) -> (r: Then)
        ensures
            r.response.body == Body::Stream(messages),
            r.frames() == frames_of(messages@),
            r@ == (ResponseView { body: Body::Stream(messages)@, ..self@ }),
    {
        self.body(Body::bytes_stream(messages))
    }

    /// Text body.
    pub fn text(self, body: &str) -> (r: Then)
        ensures
            r.frames() == seq![body.spec_bytes()],
            r@ == (ResponseView { body: body.spec_bytes(), ..self@ }),
    {
        self.body(Body::text(body))
    }

    /// Text streaming body: each text is one frame.
    pub fn text_stream(self, messages: &Vec<String>) -> (r: Then)
        ensures
            r.frames() == Seq::new(
                messages@.len(),
                |i: int| vstd::utf8::encode_utf8(messages@[i]@),
            ),
            r@ == (ResponseView { body: r.response.body@, ..self@ }),
    {
        self.body(Body::text_stream(messages))
    }

    /// Json body, from a value that is already encoded. Adds the header
    /// `content-type: application/json`.
    pub fn json(self, encoded: Vec<u8>) -> (r: Then)
        ensures
            r.response.body == Body::Full(encoded),
            r@ == (ResponseView {
                headers: insert_pair(self@.headers, ("content-type"@, "application/json"@)),
                body: encoded@,
                ..self@
            }),
    {
        let mut r = self;
        r.response.headers.insert("content-type", "application/json");
        r.response.body = Body::json(encoded);
        r
    }

    /// Newline delimited JSON streaming body, from values that are already
    /// encoded. Adds the header `content-type: application/x-ndjson`.
    pub fn json_lines_stream(self, messages: &Vec<Vec<u8>>) -> (r: Then)
        ensures
            r.frames() == Seq::new(messages@.len(), |i: int| messages@[i]@.push(10u8)),
            r@ == (ResponseView {
                headers: insert_pair(self@.headers, ("content-type"@, "application/x-ndjson"@)),
                body: r.response.body@,
                ..self@
            }),
    {
        let mut r = self;
        r.response.headers.insert("content-type", "application/x-ndjson");
        r.response.body = Body::json_lines_stream(messages);
        r
    }

    /// Protobuf body, from a message that is already encoded: the body is
    /// the message in a gRPC frame.
    pub fn pb(self, message: &[u8]) -> (r: Then)
        ensures
            r.frames() == seq![grpc_frame(message@)],
            r@ == (ResponseView { body: grpc_frame(message@), ..self@ }),
    {
        self.body(Body::pb(message))
    }

    /// Protobuf streaming body, from messages that are already encoded: each
    /// frame of the body is one message in a gRPC frame.
    pub fn pb_stream(self, messages: &Vec<Vec<u8>>) -> (r: Then)
        ensures
            r.frames() == Seq::new(messages@.len(), |i: int| grpc_frame(messages@[i]@)),
            r@ == (ResponseView { body: r.response.body@, ..self@ }),
    {
        self.body(Body::pb_stream(messages))
    }

    /// Error status code and message.
    pub fn error(self, status: StatusCode, message: &str) -> (r: Then)
        ensures
            r.response.body == self.response.body,
            r@ == (ResponseView { status: status@, message: Some(message@), ..self@ }),
    {
        self.status(status).message(message)
    }

    /// 200 Ok
    pub fn ok(self) -> (r: Then)
        ensures
            r.response.body == self.response.body,
            r@ == (ResponseView { status: 200, ..self@ }),
    {
        self.status(StatusCode::ok())
    }

    /// 400 Bad Request
    pub fn bad_request(self) -> (r: Then)
        ensures
            r.response.body == self.response.body,
            r@ == (ResponseView { status: 400, ..self@ }),
    {
        self.status(StatusCode::bad_request())
    }

    /// 401 Unauthorized
    pub fn unauthorized(self) -> (r: Then)
        ensures
            r.response.body == self.response.body,
            r@ == (ResponseView { status: 401, ..self@ }),
    {
        self.status(StatusCode::unauthorized())
    }

    /// 403 Forbidden
    pub fn forbidden(self) -> (r: Then)
        ensures
            r.response.body == self.response.body,
            r@ == (ResponseView { status: 403, ..self@ }),
    {
        self.status(StatusCode::forbidden())
    }

    /// 404 Not Found
    pub fn not_found(self) -> (r: Then)
        ensures
            r.response.body == self.response.body,
            r@ == (ResponseView { status: 404, ..self@ }),
    {
        self.status(StatusCode::not_found())
    }

    /// 415 Unsupported Media Type
    pub fn unsupported_media_type(self) -> (r: Then)
        ensures
            r.response.body == self.response.body,
            r@ == (ResponseView { status: 415, ..self@ }),
    {
        self.status(StatusCode::unsupported_media_type())
    }

    /// 422 Unprocessable Content
    pub fn unprocessable_content(self) -> (r: Then)
        ensures
            r.response.body == self.response.body,
            r@ == (ResponseView { status: 422, ..self@ }),
    {
        self.status(StatusCode::unprocessable_entity())
    }

    /// 500 Internal Server Error
    pub fn internal_server_error(self) -> (r: Then)
        ensures
            r.response.body == self.response.body,
            r@ == (ResponseView { status: 500, ..self@ }),
    {
        self.status(StatusCode::internal_server_error())
    }

    /// 501 Not Implemented
    pub fn not_implemented(self) -> (r: Then)
        ensures
            r.response.body == self.response.body,
            r@ == (ResponseView { status: 501, ..self@ }),
    {
        self.status(StatusCode::not_implemented())
    }

    /// 502 Bad Gateway
    pub fn bad_gateway(self) -> (r: Then)
        ensures
            r.response.body == self.response.body,
            r@ == (ResponseView { status: 502, ..self@ }),
    {
        self.status(StatusCode::bad_gateway())
    }

    /// 503 Service Unavailable
    pub fn service_unavailable(self) -> (r: Then)
        ensures
            r.response.body == self.response.body,
            r@ == (ResponseView { status: 503, ..self@ }),
    {
        self.status(StatusCode::service_unavailable())
    }

    /// 504 Gateway Timeout
    pub fn gateway_timeout(self) -> (r: Then)
        ensures
            r.response.body == self.response.body,
            r@ == (ResponseView { status: 504, ..self@ }),
    {
        self.status(StatusCode::gateway_timeout())
    }
}

impl Default for Then {
    fn default() -> (r: Then)
        ensures
            r.response.body == Body::Empty,
            r@ == (ResponseView {
                status: 200,
                headers: Seq::empty(),
                body: Seq::empty(),
                message: None,
            }),
    {
        Then::new()
    }
}

} // verus!
