//! The errors of the library.

use vstd::prelude::*;

verus! {

/// Why an operation failed. Each variant carries a human-readable detail.
#[derive(Debug)]
pub enum GhError {
    /// The session with the hosting service could not be built.
    AuthError(String),
    /// A repository given as `owner/name` was malformed.
    InvalidRepoUrl(String),
    /// A remote URL was of neither supported shape.
    UnsupportedUrlFormat(String),
    /// A remote call failed while listing issues or comments.
    ApiError(String),
    /// The rate-limit status could not be read.
    RateLimitError(String),
    /// An output format name was not recognised.
    InvalidFormat(String),
}

} // verus!
