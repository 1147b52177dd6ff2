//! Builders of the two halves of a mock: the conditions and the response.
pub mod then;
pub mod when;

pub use then::Then;
pub use when::When;
