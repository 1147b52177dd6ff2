//! Mock server: its configuration and the steps of its life.
//!
//! Binding sockets, accepting connections and waiting are left to the
//! caller, which reports what happened; what the server is allowed to do
//! next is decided here.
use crate::error::Error;
use crate::mock::{Mock, MockView, DEFAULT_PRIORITY};
use crate::mock_builder::{Then, When};
use crate::mock_set::{insert_entry, insert_mock, is_built, MockSet};
use crate::text::{decimal, decimal_string};
use rand::Rng;
use vstd::prelude::*;
use vstd::string::StringExecFns;

verus! {

/// First port of the range from which a port is drawn.
pub const PORT_RANGE_START: u16 = 40000;

/// First port past the range from which a port is drawn.
pub const PORT_RANGE_END: u16 = 60000;

/// How often the caller tries to connect to a server that it has started
/// before it takes the server to be ready.
pub const READY_ATTEMPTS: u32 = 30;

/// How long the caller waits between two such tries, in milliseconds.
pub const READY_WAIT_MILLIS: u64 = 10;

/// How long a server that shuts down waits for open connections to finish,
/// in seconds.
pub const DRAIN_TIMEOUT_SECS: u64 = 10;

/// Wraps `rand::rng` and `Rng::random_range` on a half-open range: the
/// result lies in the range. The range must not be empty.
#[verifier::external_body]
fn random_in_range(low: u16, high: u16) -> (r: u16)
    requires
        low < high,
    ensures
        low <= r < high,
{
    rand::rng().random_range(low..high)
}

/// The absolute URL that `Url::join` gives for a reference, joined to the
/// base URL that `Url::parse` reads out of a text; none where either of
/// them fails.
pub uninterp spec fn joined_url(base: Seq<char>, reference: Seq<char>) -> Option<Seq<char>>;

/// Wraps `url::Url::join`, on the base that `url::Url::parse` reads: the
/// result is the joined URL as a text, which depends on the two texts
/// alone, and `None` where parsing or joining fails.
#[verifier::external_body]
fn join_url(base: &str, reference: &str) -> (r: Option<String>)
    ensures
        r is Some <==> joined_url(base@, reference@) is Some,
        r is Some ==> joined_url(base@, reference@) == Some(r->Some_0@),
{
    match url::Url::parse(base) {
        Ok(parsed) => match parsed.join(reference) {
            Ok(joined) => Some(String::from(joined)),
            Err(_) => None,
        },
        Err(_) => None,
    }
}

/// Draws a port at which to try to listen.
pub fn candidate_port() -> (r: u16)
    ensures
        PORT_RANGE_START <= r < PORT_RANGE_END,
{
    random_in_range(PORT_RANGE_START, PORT_RANGE_END)
}

/// The protocol that a server speaks.
#[derive(Debug, Clone, Copy, PartialEq, Eq, Structural)]
pub enum ServerKind {
    Http,
    Grpc,
}

impl ServerKind {
    /// The name of the protocol.
    pub open spec fn spec_name(&self) -> Seq<char> {
        match self {
            ServerKind::Http => "http"@,
            ServerKind::Grpc => "grpc"@,
        }
    }

    /// Returns the name of the protocol.
    pub fn as_str(&self) -> (r: &'static str)
        ensures
            r@ == self.spec_name(),
    {
        match self {
            ServerKind::Http => "http",
            ServerKind::Grpc => "grpc",
        }
    }

    /// Tells whether connections are served with HTTP/2 only. A gRPC server
    /// speaks HTTP/2 only; an HTTP server takes HTTP/1.1 and HTTP/2.
    pub fn http2_only(&self) -> (r: bool)
        ensures
            r == (*self == ServerKind::Grpc),
    {
        match self {
            ServerKind::Http => false,
            ServerKind::Grpc => true,
        }
    }
}

/// The steps of a server's life.
#[derive(Debug, Clone, Copy, PartialEq, Eq, Structural)]
pub enum Lifecycle {
    Created,
    Starting,
    Running,
    ShuttingDown,
    Stopped,
}

/// The text of the base URL of a server that listens at a port.
pub open spec fn base_url_text(port: u16) -> Seq<char> {
    "http://0.0.0.0:"@ + decimal(port as nat)
}

/// A mock server.
#[derive(Debug)]
pub struct MockServer {
    name: String,
    kind: ServerKind,
    state: Lifecycle,
    port: Option<u16>,
    mocks: MockSet,
}

impl MockServer {
    /// The name of the server.
    pub closed spec fn spec_name(&self) -> Seq<char> {
        self.name@
    }

    /// The protocol of the server.
    pub closed spec fn spec_kind(&self) -> ServerKind {
        self.kind
    }

    /// The step of its life that the server is at.
    pub closed spec fn spec_state(&self) -> Lifecycle {
        self.state
    }

    /// The port at which the server listens, once it runs.
    pub closed spec fn spec_port(&self) -> Option<u16> {
        self.port
    }

    /// The mocks of the server.
    pub closed spec fn spec_mocks(&self) -> MockSet {
        self.mocks
    }

    /// Whether the server has a port exactly while it runs or shuts down.
    /// This holds of a new server, and every step keeps it.
    pub open spec fn wf(&self) -> bool {
        self.spec_port() is Some <==> (self.spec_state() == Lifecycle::Running
            || self.spec_state() == Lifecycle::ShuttingDown)
    }

    /// Creates a new HTTP server without mocks.
    pub fn new(name: &str) -> (r: MockServer)
        ensures
            r.wf(),
            r.spec_name() == name@,
            r.spec_kind() == ServerKind::Http,
            r.spec_state() == Lifecycle::Created,
            r.spec_port() is None,
            r.spec_mocks()@.len() == 0,
    {
        MockServer {
            name: String::from_str(name),
            kind: ServerKind::Http,
            state: Lifecycle::Created,
            port: None,
            mocks: MockSet::new(),
        }
    }

    /// Sets the server type to gRPC.
    pub fn grpc(self) -> (r: MockServer)
        ensures
            self.wf() ==> r.wf(),
            r.spec_kind() == ServerKind::Grpc,
            r.spec_name() == self.spec_name(),
            r.spec_state() == self.spec_state(),
            r.spec_port() == self.spec_port(),
            r.spec_mocks() == self.spec_mocks(),
    {
        let mut r = self;
        r.kind = ServerKind::Grpc;
        r
    }

    /// Sets the server mocks.
    pub fn with_mocks(self, mocks: MockSet) -> (r: MockServer)
        ensures
            self.wf() ==> r.wf(),
            r.spec_mocks() == mocks,
            r.spec_kind() == self.spec_kind(),
            r.spec_name() == self.spec_name(),
            r.spec_state() == self.spec_state(),
            r.spec_port() == self.spec_port(),
    {
        let mut r = self;
        r.mocks = mocks;
        r
    }

    /// Begins to start the server. A server can be started once: one that
    /// has been started before is left as it is, and the error says that it
    /// is already running.
    pub fn begin_start(&mut self) -> (r: Result<(), Error>)
        ensures
            old(self).wf() ==> final(self).wf(),
            final(self).spec_name() == old(self).spec_name(),
            final(self).spec_kind() == old(self).spec_kind(),
            final(self).spec_mocks() == old(self).spec_mocks(),
            final(self).spec_port() == old(self).spec_port(),
            old(self).spec_state() == Lifecycle::Created ==> r is Ok && final(self).spec_state()
                == Lifecycle::Starting,
            old(self).spec_state() != Lifecycle::Created ==> r is Err && r->Err_0 is ServerError
                && r->Err_0.spec_detail() == "already running"@ && final(self).spec_state() == old(
                self,
            ).spec_state(),
    {
        match self.state {
            Lifecycle::Created => {
                self.state = Lifecycle::Starting;
                Ok(())
            },
            _ => Err(Error::ServerError(String::from_str("already running"))),
        }
    }

    /// Records that the server listens at a port and is ready. Returns
    /// false, and changes nothing, unless the server is starting.
    pub fn started(&mut self, port: u16) -> (r: bool)
        ensures
            old(self).wf() ==> final(self).wf(),
            final(self).spec_name() == old(self).spec_name(),
            final(self).spec_kind() == old(self).spec_kind(),
            final(self).spec_mocks() == old(self).spec_mocks(),
            r == (old(self).spec_state() == Lifecycle::Starting),
            r ==> final(self).spec_state() == Lifecycle::Running && final(self).spec_port()
                == Some(port),
            !r ==> final(self).spec_state() == old(self).spec_state() && final(self).spec_port()
                == old(self).spec_port(),
    {
        match self.state {
            Lifecycle::Starting => {
                self.state = Lifecycle::Running;
                self.port = Some(port);
                true
            },
            _ => false,
        }
    }

    /// Records that the server could not be started: a server that is
    /// starting is back where it was created. Returns false, and changes
    /// nothing, unless the server is starting.
    pub fn start_failed(&mut self) -> (r: bool)
        ensures
            old(self).wf() ==> final(self).wf(),
            final(self).spec_name() == old(self).spec_name(),
            final(self).spec_kind() == old(self).spec_kind(),
            final(self).spec_mocks() == old(self).spec_mocks(),
            final(self).spec_port() == old(self).spec_port(),
            r == (old(self).spec_state() == Lifecycle::Starting),
            r ==> final(self).spec_state() == Lifecycle::Created,
            !r ==> final(self).spec_state() == old(self).spec_state(),
    {
        match self.state {
            Lifecycle::Starting => {
                self.state = Lifecycle::Created;
                true
            },
            _ => false,
        }
    }

    /// Asks the server to shut down: a running server stops accepting
    /// connections and waits for the open ones. Returns false, and changes
    /// nothing, unless the server is running.
    pub fn shutdown(&mut self) -> (r: bool)
        ensures
            old(self).wf() ==> final(self).wf(),
            final(self).spec_name() == old(self).spec_name(),
            final(self).spec_kind() == old(self).spec_kind(),
            final(self).spec_mocks() == old(self).spec_mocks(),
            final(self).spec_port() == old(self).spec_port(),
            r == (old(self).spec_state() == Lifecycle::Running),
            r ==> final(self).spec_state() == Lifecycle::ShuttingDown,
            !r ==> final(self).spec_state() == old(self).spec_state(),
    {
        match self.state {
            Lifecycle::Running => {
                self.state = Lifecycle::ShuttingDown;
                true
            },
            _ => false,
        }
    }

    /// Records that the open connections are closed, or that waiting for
    /// them has timed out: a server that shuts down is stopped. Returns
    /// false, and changes nothing, unless the server shuts down.
    pub fn stopped(&mut self) -> (r: bool)
        ensures
            old(self).wf() ==> final(self).wf(),
            final(self).spec_name() == old(self).spec_name(),
            final(self).spec_kind() == old(self).spec_kind(),
            final(self).spec_mocks() == old(self).spec_mocks(),
            r == (old(self).spec_state() == Lifecycle::ShuttingDown),
            r ==> final(self).spec_state() == Lifecycle::Stopped && final(self).spec_port() is None,
            !r ==> final(self).spec_state() == old(self).spec_state() && final(self).spec_port()
                == old(self).spec_port(),
    {
        match self.state {
            Lifecycle::ShuttingDown => {
                self.state = Lifecycle::Stopped;
                self.port = None;
                true
            },
            _ => false,
        }
    }

    /// Returns the name of the server.
    pub fn name(&self) -> (r: &str)
        ensures
            r@ == self.spec_name(),
    {
        self.name.as_str()
    }

    /// Returns the protocol of the server.
    pub fn kind(&self) -> (r: ServerKind)
        ensures
            r == self.spec_kind(),
    {
        self.kind
    }

    /// Returns the step of its life that the server is at.
    pub fn state(&self) -> (r: Lifecycle)
        ensures
            r == self.spec_state(),
    {
        self.state
    }

    /// Returns the port at which the server listens, once it runs.
    pub fn port(&self) -> (r: Option<u16>)
        ensures
            r == self.spec_port(),
    {
        self.port
    }

    /// Returns the address at which the server listens, once it runs.
    pub fn addr(&self) -> (r: Option<String>)
        ensures
            match self.spec_port() {
                Some(port) => r is Some && r->Some_0@ == "0.0.0.0:"@ + decimal(port as nat),
                None => r is None,
            },
    {
        match self.port {
            Some(port) => Some(
                String::from_str("0.0.0.0:").concat(decimal_string(port as u64).as_str()),
            ),
            None => None,
        }
    }

    /// Returns the base URL of the server, once it runs.
    pub fn base_url(&self) -> (r: Option<String>)
        ensures
            match self.spec_port() {
                Some(port) => r is Some && r->Some_0@ == base_url_text(port),
                None => r is None,
            },
    {
        match self.port {
            Some(port) => Some(
                String::from_str("http://0.0.0.0:").concat(decimal_string(port as u64).as_str()),
            ),
            None => None,
        }
    }

    /// Returns the absolute URL of a path on the server: the path joined to
    /// the base URL. There is none before the server runs, and none where
    /// the path cannot be joined.
    pub fn url(&self, path: &str) -> (r: Option<String>)
        ensures
            match self.spec_port() {
                Some(port) => {
                    &&& r is Some <==> joined_url(base_url_text(port), path@) is Some
                    &&& r is Some ==> joined_url(base_url_text(port), path@) == Some(r->Some_0@)
                },
                None => r is None,
            },
    {
        match self.base_url() {
            Some(base) => join_url(base.as_str(), path),
            None => None,
        }
    }

    /// Returns true while the server runs.
    pub fn is_running(&self) -> (r: bool)
        ensures
            r == (self.spec_state() == Lifecycle::Running),
    {
        match self.state {
            Lifecycle::Running => true,
            _ => false,
        }
    }

    /// Returns the mocks of the server, to read them.
    pub fn mock_set(&self) -> (r: &MockSet)
        ensures
            *r == self.spec_mocks(),
    {
        &self.mocks
    }

    /// Returns the mocks of the server, to read or change them.
    pub fn mocks(&mut self) -> (r: &mut MockSet)
        ensures
            *r == old(self).spec_mocks(),
            final(self).spec_mocks() == *final(r),
            final(self).spec_name() == old(self).spec_name(),
            final(self).spec_kind() == old(self).spec_kind(),
            final(self).spec_state() == old(self).spec_state(),
            final(self).spec_port() == old(self).spec_port(),
    {
        &mut self.mocks
    }

    /// Builds and inserts a mock.
    pub fn mock(&mut self, when: When, then: Then)
        ensures
            old(self).wf() ==> final(self).wf(),
            final(self).spec_name() == old(self).spec_name(),
            final(self).spec_kind() == old(self).spec_kind(),
            final(self).spec_state() == old(self).spec_state(),
            final(self).spec_port() == old(self).spec_port(),
            final(self).spec_mocks()@ == insert_mock(
                old(self).spec_mocks()@,
                MockView {
                    matchers: crate::canonical::canonical(when@),
                    response: then@,
                    priority: DEFAULT_PRIORITY,
                    match_count: 0,
                    limit: None,
                },
            ),            exists|m: Mock|
                #![trigger is_built(m, when@, then.response, DEFAULT_PRIORITY)]
                is_built(m, when@, then.response, DEFAULT_PRIORITY) && final(self).spec_mocks().entries()
                    == insert_entry(old(self).spec_mocks().entries(), m),
    {
        self.mocks.mock(when, then);
    }

    /// Builds and inserts a mock with explicit priority.
    pub fn mock_with_priority(&mut self, priority: u8, when: When, then: Then)
        ensures
            old(self).wf() ==> final(self).wf(),
            final(self).spec_name() == old(self).spec_name(),
            final(self).spec_kind() == old(self).spec_kind(),
            final(self).spec_state() == old(self).spec_state(),
            final(self).spec_port() == old(self).spec_port(),
            final(self).spec_mocks()@ == insert_mock(
                old(self).spec_mocks()@,
                MockView {
                    matchers: crate::canonical::canonical(when@),
                    response: then@,
                    priority,
                    match_count: 0,
                    limit: None,
                },
            ),            exists|m: Mock|
                #![trigger is_built(m, when@, then.response, priority)]
                is_built(m, when@, then.response, priority) && final(self).spec_mocks().entries()
                    == insert_entry(old(self).spec_mocks().entries(), m),
    {
        self.mocks.mock_with_priority(priority, when, then);
    }

    /// Gives up the server and returns its mocks.
    pub fn into_mocks(self) -> (r: MockSet)
        ensures
            r == self.spec_mocks(),
    {
        self.mocks
    }
}

} // verus!
