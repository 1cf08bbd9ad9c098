//! Errors reported by the Notion API layer.
use vstd::prelude::*;

verus! {

/// The main error type for the Notion API layer.
#[derive(Debug)]
pub enum NotionError {
    /// The HTTP request could not be performed; holds the transport's message.
    Request(String),
    /// Notion answered with an error response.
    Api {
        /// The error code returned by Notion.
        code: String,
        /// The error message returned by Notion.
        message: String,
        /// The HTTP status code.
        status: u16,
    },
    /// A local I/O operation failed; holds its message.
    Io(String),
    /// A response body could not be decoded; holds the decoder's message.
    Json(String),
    /// A required field was missing.
    MissingField(String),
    /// Unauthorized — check your API token.
    Unauthorized,
    /// Resource not found.
    NotFound,
    /// The operation is not supported for this resource.
    Unsupported(String),
}

} // verus!
