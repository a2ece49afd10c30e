//! Errors of the communication providers.

use vstd::prelude::*;

verus! {

/// A failure of a communication provider.
#[derive(Debug)]
pub enum CommError {
    /// An HTTP-level failure (network, status code).
    Http(String),
    /// An authentication or authorisation failure.
    Auth(String),
    /// A JSON encoding or decoding failure.
    Serialization(String),
    /// An operation the provider does not support.
    Unsupported(String),
    /// Any other provider failure.
    Provider(String),
}

/// The text describing an error.
pub open spec fn comm_error_text(e: CommError) -> Seq<char> {
    match e {
        CommError::Http(m) => "HTTP error: "@ + m@,
        CommError::Auth(m) => "auth error: "@ + m@,
        CommError::Serialization(m) => "serialization error: "@ + m@,
        CommError::Unsupported(m) => "unsupported operation: "@ + m@,
        CommError::Provider(m) => "provider error: "@ + m@,
    }
}

impl CommError {
    /// The text describing the error.
    pub fn message(&self) -> (s: String)
        ensures
            s@ == comm_error_text(*self),
    {
        match self {
            CommError::Http(m) => String::from_str("HTTP error: ").concat(m.as_str()),
            CommError::Auth(m) => String::from_str("auth error: ").concat(m.as_str()),
            CommError::Serialization(m) => String::from_str("serialization error: ").concat(m.as_str()),
            CommError::Unsupported(m) => String::from_str("unsupported operation: ").concat(m.as_str()),
            CommError::Provider(m) => String::from_str("provider error: ").concat(m.as_str()),
        }
    }
}

} // verus!
