//! The library's error type.

use vstd::prelude::*;
use vstd::string::to_string_from_display_ensures;

verus! {

/// The error type of JSON encoding and decoding, from `serde_json`.
#[verifier::external_type_specification]
#[verifier::external_body]
pub struct ExJsonError(serde_json::Error);

/// The error type of input and output, from `std::io`.
#[verifier::external_type_specification]
#[verifier::external_body]
pub struct ExIoError(std::io::Error);

/// Core error type for web search operations.
#[derive(Debug)]
pub enum BrowserError {
    /// Tool execution failed.
    ToolExecutionFailed { tool: String, reason: String },
    /// Invalid argument provided to a function.
    InvalidArgument(String),
    /// JSON serialization or deserialization error.
    JsonError(serde_json::Error),
    /// Input or output error.
    IoError(std::io::Error),
}

/// Result type alias for web search operations.
pub type Result<T> = std::result::Result<T, BrowserError>;

/// The message of a failed tool run.
pub open spec fn tool_failed_message(tool: Seq<char>, reason: Seq<char>) -> Seq<char> {
    "Tool '"@ + tool + "' execution failed: "@ + reason
}

/// The message of an invalid argument.
pub open spec fn invalid_argument_message(detail: Seq<char>) -> Seq<char> {
    "Invalid argument: "@ + detail
}

impl BrowserError {
    /// The human-readable message of the error.
    ///
    /// For the two variants that carry an outside error, the text after the prefix is
    /// that error's own display text.
    pub fn message(&self) -> (res: String)
        ensures
            match self {
                BrowserError::ToolExecutionFailed { tool, reason } => res@ == tool_failed_message(tool@, reason@),
                BrowserError::InvalidArgument(detail) => res@ == invalid_argument_message(detail@),
                BrowserError::JsonError(e) => exists|s: String|
                    to_string_from_display_ensures::<serde_json::Error>(e, s) && res@ == "JSON error: "@ + s@,
                BrowserError::IoError(e) => exists|s: String|
                    to_string_from_display_ensures::<std::io::Error>(e, s) && res@ == "IO error: "@ + s@,
            },
    {
        match self {
            BrowserError::ToolExecutionFailed { tool, reason } => {
                let mut res = String::from_str("Tool '");
                res.append(tool.as_str());
                res.append("' execution failed: ");
                res.append(reason.as_str());
                res
            },
            BrowserError::InvalidArgument(detail) => {
                let mut res = String::from_str("Invalid argument: ");
                res.append(detail.as_str());
                res
            },
            BrowserError::JsonError(e) => {
                let text = e.to_string();
                let mut res = String::from_str("JSON error: ");
                res.append(text.as_str());
                res
            },
            BrowserError::IoError(e) => {
                let text = e.to_string();
                let mut res = String::from_str("IO error: ");
                res.append(text.as_str());
                res
            },
        }
    }
}

} // verus!
