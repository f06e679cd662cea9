//! The failure taxonomy of a download run.

use vstd::prelude::*;

verus! {

/// Why a provider call or a persistence step failed.
///
/// `NotFound` is recoverable: the orchestrator eliminates the provider
/// and tries the next candidate.  Every other kind aborts the run.
#[derive(Debug)]
pub enum DownloadError {
    /// The provider has no content for the requested resolution.
    NotFound,
    /// A transport-level failure reaching a remote source.
    Network(String),
    /// An expected pattern was absent from a fetched page.
    Parse(String),
    /// A filesystem failure while persisting.
    Io(String),
}

impl DownloadError {
    /// Diagnostic text, as the caller prints it.
    pub fn message(&self) -> (r: String)
        ensures
            match self {
                DownloadError::NotFound => r@ == "Not found"@,
                DownloadError::Network(m) => r@ == m@,
                DownloadError::Parse(m) => r@ == m@,
                DownloadError::Io(m) => r@ == m@,
            },
    {
        match self {
            DownloadError::NotFound => "Not found".to_owned(),
            DownloadError::Network(m) => m.clone(),
            DownloadError::Parse(m) => m.clone(),
            DownloadError::Io(m) => m.clone(),
        }
    }
}

} // verus!
