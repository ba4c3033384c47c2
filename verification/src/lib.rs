//! In-memory manager for concurrent, hash-keyed file downloads.
//!
//! A [`registry::DownloadRegistry`] maps a hex-encoded SHA-256 digest (the
//! key) to one in-flight or completed download. Each download accumulates
//! bytes in a transfer buffer together with progress counters; once the
//! transfer is finished the buffer can be verified against the expected
//! digest or handed out for further processing.

use vstd::prelude::*;

pub mod hashing;
pub mod laws;
pub mod registry;
pub mod session;

verus! {

/// Errors returned by the download operations.
#[derive(Clone, Copy, PartialEq, Eq, Structural, Debug)]
pub enum DownloadError {
    /// A download with the requested key is already active.
    DuplicateKey,
    /// No download with the requested key exists.
    NotFound,
    /// Verification was requested before the transfer finished.
    NotFinished,
    /// The stored expected-hash string is not valid hex.
    HashDecode,
}

impl DownloadError {
    /// A short description of the error, matching the registry's wire texts.
    pub fn message(&self) -> (r: &'static str)
        ensures
            *self is DuplicateKey ==> r@ == "downloading exists"@,
            *self is NotFound ==> r@ == "Not exists"@,
            *self is NotFinished ==> r@ == "Not finished"@,
            *self is HashDecode ==> r@ == "Invalid hex in expected hash"@,
    {
        match self {
            DownloadError::DuplicateKey => "downloading exists",
            DownloadError::NotFound => "Not exists",
            DownloadError::NotFinished => "Not finished",
            DownloadError::HashDecode => "Invalid hex in expected hash",
        }
    }
}

} // verus!
