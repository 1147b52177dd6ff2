//! A protocol-level mock server toolkit: rules that pair request conditions
//! with canned responses, the engine that resolves a request to a rule, and
//! the decisions of the HTTP and gRPC services that answer with them.
pub mod body;
pub mod canonical;
pub mod error;
pub mod headers;
pub mod matchers;
pub mod mock;
pub mod mock_builder;
pub mod mock_path;
pub mod mock_set;
pub mod order;
pub mod request;
pub mod response;
pub mod server;
pub mod service;
pub mod sort_key;
pub mod status;
pub mod text;
pub mod wire;

pub use body::Body;
pub use error::Error;
pub use headers::{HeaderName, HeaderValue, Headers};
pub use matchers::Matcher;
pub use mock::Mock;
pub use mock_builder::{Then, When};
pub use mock_set::MockSet;
pub use server::MockServer;
pub use request::{Method, Request};
pub use response::Response;
pub use status::{Code, StatusCode};
