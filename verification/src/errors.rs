//! Error types of the library.

use vstd::prelude::*;

verus! {

/// Failure of a tool invocation.
#[derive(Debug, Clone)]
pub enum ToolError {
    /// The tool ran (or was refused) and could not produce a result.
    ExecutionError(String),
    /// The arguments handed to the tool did not parse or were rejected.
    InvalidArgs(String),
}

impl ToolError {
    /// The text a user or the model sees for this error.
    pub open spec fn message_view(&self) -> Seq<char> {
        match self {
            ToolError::ExecutionError(s) => "Execution error: "@ + s@,
            ToolError::InvalidArgs(s) => "Invalid arguments: "@ + s@,
        }
    }

    /// The text a user or the model sees for this error.
    pub fn message(&self) -> (r: String)
        ensures
            r@ == self.message_view(),
    {
        match self {
            ToolError::ExecutionError(s) => {
                let mut r = String::from_str("Execution error: ");
                r.append(s.as_str());
                r
            },
            ToolError::InvalidArgs(s) => {
                let mut r = String::from_str("Invalid arguments: ");
                r.append(s.as_str());
                r
            },
        }
    }
}

/// Failure of an LLM provider call.
#[derive(Debug, Clone)]
pub enum ProviderError {
    /// The provider answered with an error payload.
    ApiError(String),
    /// The provider stack is misconfigured; never retried.
    ConfigError(String),
    /// The request never completed; always retryable.
    NetworkError(String),
}

impl ProviderError {
    /// The text a user or a log sees for this error.
    pub open spec fn message_view(&self) -> Seq<char> {
        match self {
            ProviderError::ApiError(s) => "API error: "@ + s@,
            ProviderError::ConfigError(s) => "Configuration error: "@ + s@,
            ProviderError::NetworkError(s) => "Network error: "@ + s@,
        }
    }

    /// The text a user or a log sees for this error.
    pub fn message(&self) -> (r: String)
        ensures
            r@ == self.message_view(),
    {
        match self {
            ProviderError::ApiError(s) => {
                let mut r = String::from_str("API error: ");
                r.append(s.as_str());
                r
            },
            ProviderError::ConfigError(s) => {
                let mut r = String::from_str("Configuration error: ");
                r.append(s.as_str());
                r
            },
            ProviderError::NetworkError(s) => {
                let mut r = String::from_str("Network error: ");
                r.append(s.as_str());
                r
            },
        }
    }
}

} // verus!
