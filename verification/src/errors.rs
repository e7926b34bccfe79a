//! Error taxonomy of the client.
//!
//! Each remote call ends in success or in exactly one of the failures below;
//! a unit of download work can additionally fail on the filesystem or while
//! extracting, without affecting its siblings.

use vstd::prelude::*;

verus! {

/// Failure of one remote call.
#[derive(Debug, Clone)]
pub enum ApiFailure {
    /// The request could not be sent or the response could not be received.
    Transport { detail: String },
    /// The rate-limit retry ceiling was hit; `max_retries` is that ceiling.
    RateLimitExceeded { max_retries: u32 },
    /// A non-success status; the response body is kept verbatim.
    Api { status: u16, body: String },
    /// The response body could not be decoded.
    Parse { detail: String },
}

/// Failure of one unit of download work.
#[derive(Debug, Clone)]
pub enum UnitError {
    /// Listing the unit's artifacts failed.
    Uploads(ApiFailure),
    /// The unit offers no artifact at all; it is skipped with a warning.
    NoUploads,
    /// Fetching the selected artifact's bytes failed.
    Download(ApiFailure),
    /// A filesystem create/write/rename/remove failed.
    Io { detail: String },
}

/// Terminal state of one unit of download work.
#[derive(Debug, Clone)]
pub enum UnitResult {
    /// Downloaded; `extracted` says whether the archive was also unpacked.
    Done { extracted: bool },
    /// Downloaded, but extraction failed afterwards; the file itself counts
    /// as successfully downloaded.
    ExtractFailed { detail: String },
    /// The unit failed before its bytes were fully on disk.
    Failed(UnitError),
}

/// Settles one response: a success status passes, any other status fails
/// at once with the status and the response body kept verbatim — such
/// failures are never retried.
pub fn check_response(status: u16, body: String) -> (r: Result<(), ApiFailure>)
    ensures
        r is Ok <==> 200 <= status < 300,
        r matches Err(e) ==> e matches ApiFailure::Api { status: s, body: b } && s == status && b
            == body,
{
    if 200 <= status && status < 300 {
        Ok(())
    } else {
        Err(ApiFailure::Api { status, body })
    }
}

/// The run cannot start at all: no credential was supplied.
#[derive(Debug, Clone, PartialEq, Eq, Structural)]
pub struct MissingCredential;

/// Picks the credential: an explicit value wins over one found in the
/// environment; with neither, the run is refused before any call is made.
pub fn resolve_credential(explicit: Option<String>, from_env: Option<String>) -> (r: Result<
    String,
    MissingCredential,
>)
    ensures
        explicit matches Some(k) ==> r matches Ok(v) && v == k,
        (explicit is None && from_env is Some) ==> (r matches Ok(v) && from_env == Some(v)),
        r is Err <==> explicit is None && from_env is None,
{
    match explicit {
        Some(k) => Ok(k),
        None => match from_env {
            Some(k) => Ok(k),
            None => Err(MissingCredential),
        },
    }
}

} // verus!
