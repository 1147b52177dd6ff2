//! Errors reported by fallible constructors and by the server.
use vstd::prelude::*;
use vstd::string::StringExecFns;

verus! {

/// Represents errors that can occur while building or serving mocks.
#[derive(Debug)]
pub enum Error {
    /// A malformed configuration value, such as a status code out of range.
    Invalid(String),
    /// A value could not be encoded to or decoded from JSON.
    JsonError(String),
    /// Binding, accepting or serving a connection failed.
    IoError(String),
    /// The server was used in a state that does not allow the operation.
    ServerError(String),
}

impl Error {
    /// The label that precedes the detail in the rendered error.
    pub open spec fn spec_label(&self) -> Seq<char> {
        match self {
            Error::Invalid(_) => "invalid: "@,
            Error::JsonError(_) => "json error: "@,
            Error::IoError(_) => "io error: "@,
            Error::ServerError(_) => "server error: "@,
        }
    }

    /// The detail carried by the error.
    pub open spec fn spec_detail(&self) -> Seq<char> {
        match self {
            Error::Invalid(m) => m@,
            Error::JsonError(m) => m@,
            Error::IoError(m) => m@,
            Error::ServerError(m) => m@,
        }
    }

    /// Returns the detail carried by the error.
    pub fn detail(&self) -> (r: &str)
        ensures
            r@ == self.spec_detail(),
    {
        match self {
            Error::Invalid(m) => m.as_str(),
            Error::JsonError(m) => m.as_str(),
            Error::IoError(m) => m.as_str(),
            Error::ServerError(m) => m.as_str(),
        }
    }

    /// Renders the error as its label followed by its detail.
    pub fn message(&self) -> (r: String)
        ensures
            r@ == self.spec_label() + self.spec_detail(),
    {
        let label = match self {
            Error::Invalid(_) => "invalid: ",
            Error::JsonError(_) => "json error: ",
            Error::IoError(_) => "io error: ",
            Error::ServerError(_) => "server error: ",
        };
        String::from_str(label).concat(self.detail())
    }
}

} // verus!
