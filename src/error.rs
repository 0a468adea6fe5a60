//! The errors that retrieval and caching report.
use vstd::prelude::*;

verus! {

/// One failed retrieval: the URL that was asked for, and why it failed.
#[derive(Debug, Clone)]
pub struct Failure {
    pub url: String,
    pub reason: String,
}

/// The error kinds of the library.
#[derive(Debug, Clone)]
pub enum RfcError {
    /// The cache root cannot be determined or created, or the HTTP client cannot be built.
    Config(String),
    /// A read, write or delete against the local cache failed.
    Io(String),
    /// The metadata endpoint could not be reached or its answer could not be read.
    MetadataUnavailable(String),
    /// The remote endpoint answered with a non-success status for this name.
    NotFound(String),
    /// Both the text and the hypertext retrieval failed.
    FetchFailed { text: Failure, html: Failure },
}

} // verus!
