//! Mock response
use crate::body::Body;
use crate::headers::{HeaderPair, Headers};
use crate::status::StatusCode;
use crate::text::str_eq;
use vstd::prelude::*;
use vstd::string::StringExecFns;

verus! {

/// What a response is, as plain values. The body stands by its bytes: how it
/// is cut into frames is no part of what a response is compared by.
pub struct ResponseView {
    pub status: u16,
    pub headers: Seq<HeaderPair>,
    pub body: Seq<u8>,
    pub message: Option<Seq<char>>,
}

/// Represents a HTTP response.
#[derive(Debug)]
pub struct Response {
    pub status: StatusCode,
    pub headers: Headers,
    pub body: Body,
    pub message: Option<String>,
}

impl View for Response {
    type V = ResponseView;

    open spec fn view(&self) -> ResponseView {
        ResponseView {
            status: self.status@,
            headers: self.headers@,
            body: self.body@,
            message: match self.message {
                Some(m) => Some(m@),
                None => None,
            },
        }
    }
}

impl Response {
    /// The frames in which the body is sent.
    pub open spec fn frames(&self) -> Seq<Seq<u8>> {
        self.body.frames()
    }

    /// Creates a response with this body, status 200, no headers and no
    /// message.
    pub fn new(body: Body) -> (r: Response)
        ensures
            r.body == body,
            r@ == (ResponseView {
                status: 200,
                headers: Seq::empty(),
                body: body@,
                message: None,
            }),
    {
        Response { status: StatusCode::ok(), headers: Headers::new(), body, message: None }
    }

    /// Replaces the status.
    pub fn with_status(self, status: StatusCode) -> (r: Response)
        ensures
            r.body == self.body,
            r@ == (ResponseView { status: status@, ..self@ }),
    {
        let mut r = self;
        r.status = status;
        r
    }

    /// Replaces the headers.
    pub fn with_headers(self, headers: Headers) -> (r: Response)
        ensures
            r.body == self.body,
            r@ == (ResponseView { headers: headers@, ..self@ }),
    {
        let mut r = self;
        r.headers = headers;
        r
    }

    /// Replaces the message.
    pub fn with_message(self, message: &str) -> (r: Response)
        ensures
            r.body == self.body,
            r@ == (ResponseView { message: Some(message@), ..self@ }),
    {
        let mut r = self;
        r.message = Some(String::from_str(message));
        r
    }

    /// Returns the status.
    pub fn status(&self) -> (r: &StatusCode)
        ensures
            *r == self.status,
    {
        &self.status
    }

    /// Returns the headers.
    pub fn headers(&self) -> (r: &Headers)
        ensures
            *r == self.headers,
    {
        &self.headers
    }

    /// Returns the body.
    pub fn body(&self) -> (r: &Body)
        ensures
            *r == self.body,
    {
        &self.body
    }

    /// Returns the message, if there is one.
    pub fn message(&self) -> (r: Option<&str>)
        ensures
            r is Some <==> self@.message is Some,
            r is Some ==> r->Some_0@ == self@.message->Some_0,
    {
        match &self.message {
            Some(m) => Some(m.as_str()),
            None => None,
        }
    }

    /// True when the status is in 200..300.
    pub fn is_ok(&self) -> (r: bool)
        ensures
            r == (200 <= self@.status < 300),
    {
        self.status.is_ok()
    }

    /// True when the status is in 400..600.
    pub fn is_error(&self) -> (r: bool)
        ensures
            r == (400 <= self@.status < 600),
    {
        self.status.is_error()
    }

    /// Returns a copy of the response, with the body cut into the same
    /// frames.
    pub fn duplicate(&self) -> (r: Response)
        ensures
            r@ == self@,
            r.frames() == self.frames(),
            r.status == self.status,
    {
        let message = match &self.message {
            Some(m) => Some(m.clone()),
            None => None,
        };
        Response {
            status: self.status,
            headers: self.headers.duplicate(),
            body: self.body.duplicate(),
            message,
        }
    }

    /// Returns true if both responses have the same status, headers,
    /// message and body bytes.
    pub fn same_as(&self, other: &Response) -> (r: bool)
        ensures
            r == (self@ == other@),
    {
        let same_message = match (&self.message, &other.message) {
            (Some(a), Some(b)) => str_eq(a.as_str(), b.as_str()),
            (None, None) => true,
            _ => false,
        };
        self.status.as_u16() == other.status.as_u16() && same_message && self.headers.same_as(
            &other.headers,
        ) && self.body.same_as(&other.body)
    }
}

impl Default for Response {
    fn default() -> (r: Response)
        ensures
            r.body == Body::Empty,
            r@ == (ResponseView {
                status: 200,
                headers: Seq::empty(),
                body: Seq::empty(),
                message: None,
            }),
    {
        Response::new(Body::Empty)
    }
}

impl Clone for Response {
    fn clone(&self) -> (r: Response)
        ensures
            r@ == self@,
            r.frames() == self.frames(),
    {
        self.duplicate()
    }
}

impl PartialEq for Response {
    fn eq(&self, other: &Response) -> (r: bool) {
        self.same_as(other)
    }
}

impl vstd::std_specs::cmp::PartialEqSpecImpl for Response {
    open spec fn obeys_eq_spec() -> bool {
        true
    }

    open spec fn eq_spec(&self, other: &Response) -> bool {
        self@ == other@
    }
}

} // verus!
