//! The error taxonomy of the library.
//!
//! Every failure is terminal for the invocation: the caller reports it and
//! exits; nothing here retries or recovers.

use vstd::prelude::*;

verus! {

/// Everything that can go wrong during one request-response cycle.
#[derive(Debug, Clone, Copy, PartialEq, Eq, Structural)]
pub enum NewsAPIError {
    /// No credential is available and none could be obtained.
    ConfigurationError,
    /// The HTTP request failed: a transport error or a non-success status.
    RequestFailed,
    /// The response body could not be decoded as text.
    ResponseDecodeFailed,
    /// The response body is not JSON of the expected shape.
    ArticleParseFailed,
}

impl NewsAPIError {
    /// A human-readable one-line description of the error.
    pub fn message(&self) -> (r: &'static str)
        ensures
            r@ == spec_message(*self),
    {
        match self {
            NewsAPIError::ConfigurationError => "No API key is available.",
            NewsAPIError::RequestFailed => "Failed to get response from API.",
            NewsAPIError::ResponseDecodeFailed => "Failed to convert response to text.",
            NewsAPIError::ArticleParseFailed => "Failed to parse articles from response.",
        }
    }
}

/// The description that [`NewsAPIError::message`] returns for each variant.
pub open spec fn spec_message(e: NewsAPIError) -> Seq<char> {
    match e {
        NewsAPIError::ConfigurationError => "No API key is available."@,
        NewsAPIError::RequestFailed => "Failed to get response from API."@,
        NewsAPIError::ResponseDecodeFailed => "Failed to convert response to text."@,
        NewsAPIError::ArticleParseFailed => "Failed to parse articles from response."@,
    }
}

} // verus!
