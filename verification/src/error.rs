//! Cloud Run error types.

use vstd::prelude::*;
use vstd::string::*;

verus! {

/// Cloud Run errors.
#[derive(Debug)]
pub enum CloudRunError {
    /// Configuration error.
    Config(String),
    /// Metadata fetch error.
    Metadata(String),
    /// Health check error.
    HealthCheck(String),
    /// Server error.
    Server(String),
}

impl CloudRunError {
    /// The human-readable message of the error.
    pub open spec fn message_spec(&self) -> Seq<char> {
        match self {
            CloudRunError::Config(s) => "Configuration error: "@ + s@,
            CloudRunError::Metadata(s) => "Metadata error: "@ + s@,
            CloudRunError::HealthCheck(s) => "Health check error: "@ + s@,
            CloudRunError::Server(s) => "Server error: "@ + s@,
        }
    }

    /// The human-readable message of the error.
    pub fn message(&self) -> (r: String)
        ensures
            r@ == self.message_spec(),
    {
        match self {
            CloudRunError::Config(s) => String::from_str("Configuration error: ").concat(s.as_str()),
            CloudRunError::Metadata(s) => String::from_str("Metadata error: ").concat(s.as_str()),
            CloudRunError::HealthCheck(s) => String::from_str("Health check error: ").concat(
                s.as_str(),
            ),
            CloudRunError::Server(s) => String::from_str("Server error: ").concat(s.as_str()),
        }
    }
}

} // verus!

verus! {

/// Result type for Cloud Run operations.
pub type Result<T> = core::result::Result<T, CloudRunError>;

} // verus!
