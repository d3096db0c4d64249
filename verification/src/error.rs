//! The failures that the cache and the request executor report.

use vstd::prelude::*;

verus! {

/// Why an operation failed.
#[derive(Debug, PartialEq, Eq)]
pub enum Error {
    /// The cache's store failed: a transaction, or the encoding of an entry.
    Storage { message: String },
    /// The embedding provider failed.
    Embedding { message: String },
    /// The request did not get through, and the retries are used up.
    Network { message: String },
    /// The upstream answered 404.
    UpstreamNotFound { body: String },
    /// The upstream answered 429, and the retries are used up.
    UpstreamRateLimited { body: String },
    /// The upstream answered 502 or 503, and the retries are used up.
    UpstreamServerError { status: u16, body: String },
    /// The upstream answered with any other status that is no success.
    UpstreamOther { status: u16, body: String },
    /// The upstream answered with success, and the body is no document.
    ResponseParse { message: String },
    /// No directory for the project's data could be found.
    NoProjectDirectory,
}

} // verus!
