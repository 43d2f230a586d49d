//! Decisions of the downloader of the FIDO MDS3 blob: which error a failed
//! request gives, when a download lock is stale, and what a download to
//! the per-user path returns. The network and file work stays with the
//! caller.
use crate::error::{error_text, ErrorModel, FidoMds3AttestationCaError};
use crate::text::{decimal, decimal_string};
use std::path::PathBuf;
use vstd::prelude::*;
use vstd::string::*;

verus! {

/// Age in seconds past which a download lock file is taken to be left over
/// from a download that died.
pub const STALE_LOCK_SECS: u64 = 300;

/// Whether a lock file of the given age is stale.
pub fn lock_is_stale(age_secs: u64) -> (res: bool)
    ensures
        res == (age_secs > STALE_LOCK_SECS),
{
    age_secs > STALE_LOCK_SECS
}

/// How a request for the blob failed.
pub enum FetchFailure {
    /// The server answered with this HTTP status.
    Status(u16),
    /// The server could not be reached; the text says why.
    Transport(String),
}

/// The error for a failed request of the library's downloader: rate
/// limiting for status 429, otherwise a download error that names the
/// status or the network failure.
pub open spec fn fetch_error(f: FetchFailure) -> ErrorModel {
    match f {
        FetchFailure::Status(code) => if code == 429 {
            ErrorModel::RateLimited
        } else {
            ErrorModel::Download("HTTP request failed with status code "@ + decimal(code as nat))
        },
        FetchFailure::Transport(reason) => ErrorModel::Download(
            "Network error while downloading FIDO MDS blob: "@ + reason@,
        ),
    }
}

/// The error for a failed request of the command-line download: rate
/// limiting for status 429, otherwise a download error that names the
/// status or carries the network failure's text.
pub open spec fn cli_fetch_error(f: FetchFailure) -> ErrorModel {
    match f {
        FetchFailure::Status(code) => if code == 429 {
            ErrorModel::RateLimited
        } else {
            ErrorModel::Download("HTTP error "@ + decimal(code as nat))
        },
        FetchFailure::Transport(reason) => ErrorModel::Download(reason@),
    }
}

/// The error that a failed request gives in the library's downloader.
pub fn download_failure_error(f: FetchFailure) -> (res: FidoMds3AttestationCaError)
    ensures
        res@ == fetch_error(f),
{
    match f {
        FetchFailure::Status(code) => if code == 429 {
            FidoMds3AttestationCaError::RateLimitedError
        } else {
            let mut m = String::from_str("HTTP request failed with status code ");
            let d = decimal_string(code as usize);
            m.append(d.as_str());
            FidoMds3AttestationCaError::DownloadError(m)
        },
        FetchFailure::Transport(reason) => {
            let mut m = String::from_str("Network error while downloading FIDO MDS blob: ");
            m.append(reason.as_str());
            FidoMds3AttestationCaError::DownloadError(m)
        },
    }
}

/// The error that a failed request gives in the command-line download.
pub fn cli_download_failure_error(f: FetchFailure) -> (res: FidoMds3AttestationCaError)
    ensures
        res@ == cli_fetch_error(f),
{
    match f {
        FetchFailure::Status(code) => if code == 429 {
            FidoMds3AttestationCaError::RateLimitedError
        } else {
            let mut m = String::from_str("HTTP error ");
            let d = decimal_string(code as usize);
            m.append(d.as_str());
            FidoMds3AttestationCaError::DownloadError(m)
        },
        FetchFailure::Transport(reason) => FidoMds3AttestationCaError::DownloadError(reason),
    }
}

/// Result of downloading the latest blob to the per-user path.
///
/// `resolved` is the outcome of resolving that path and `fetched` the
/// outcome of downloading the blob to it; `fetched` is not looked at when
/// the path did not resolve. Either failure becomes a download error that
/// carries the failure's text; on success the path is returned.
pub fn download_latest_blob(
    resolved: Result<PathBuf, FidoMds3AttestationCaError>,
    fetched: Result<(), FidoMds3AttestationCaError>,
) -> (res: Result<PathBuf, FidoMds3AttestationCaError>)
    ensures
        match resolved {
            Err(e) => res matches Err(r) && r@ == ErrorModel::Download(error_text(e@)),
            Ok(path) => match fetched {
                Err(e) => res matches Err(r) && r@ == ErrorModel::Download(error_text(e@)),
                Ok(()) => res == Ok::<PathBuf, FidoMds3AttestationCaError>(path),
            },
        },
{
    let path = match resolved {
        Ok(p) => p,
        Err(e) => {
            return Err(FidoMds3AttestationCaError::DownloadError(e.message()));
        },
    };
    match fetched {
        Ok(()) => Ok(path),
        Err(e) => Err(FidoMds3AttestationCaError::DownloadError(e.message())),
    }
}

} // verus!
