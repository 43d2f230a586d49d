//! Loading the metadata blob with fallbacks: the cached file, then a fresh
//! download, then the embedded snapshot.
//!
//! The loader's decisions are a function from what the last piece of work
//! gave to the next piece of work; the caller performs each piece (file
//! reads, removals, the download) and reports back.
use crate::error::{ErrorModel, FidoMds3AttestationCaError};
use crate::parser::{blob_outcome, parse_blob};
use crate::types::{entries_model, ParsedBlob};
use std::path::PathBuf;
use std::sync::Arc;
use vstd::prelude::*;
use vstd::utf8::encode_utf8;

verus! {

/// What the work that the loader asked for gave.
pub enum LoadEvent {
    /// The per-user blob path was resolved; the flag says whether a blob
    /// file is cached there.
    PathResolved(Result<bool, FidoMds3AttestationCaError>),
    /// The cached blob file was read and parsed.
    CachedParsed(Result<Arc<ParsedBlob>, FidoMds3AttestationCaError>),
    /// The latest blob was downloaded, to the returned path.
    Downloaded(Result<PathBuf, FidoMds3AttestationCaError>),
    /// The downloaded blob file at the path was read and parsed.
    DownloadedParsed(PathBuf, Result<Arc<ParsedBlob>, FidoMds3AttestationCaError>),
    /// The embedded snapshot was loaded.
    EmbeddedLoaded(Arc<ParsedBlob>),
}

/// The next piece of work of the loader.
pub enum LoadStep {
    /// Read and parse the cached blob file.
    ParseCached,
    /// Download the latest blob.
    Download,
    /// Remove the cached blob file, which did not parse, then download.
    DiscardCachedAndDownload,
    /// Read and parse the downloaded blob file at the path.
    ParseDownloaded(PathBuf),
    /// Remove the downloaded file at the path, which did not parse, then
    /// load the embedded snapshot.
    DiscardDownloadedAndUseEmbedded(PathBuf),
    /// Load the embedded snapshot.
    UseEmbedded,
    /// Loading is over, with this result.
    Finish(Result<Arc<ParsedBlob>, FidoMds3AttestationCaError>),
}

/// Decides the loader's next piece of work from what the last one gave.
///
/// A cached blob that parses is used; otherwise the latest blob is
/// downloaded and used when it parses; otherwise the embedded snapshot is
/// used. Only a failure to resolve the per-user path ends loading with an
/// error.
pub fn next_load_step(event: LoadEvent) -> (step: LoadStep)
    ensures
        match event {
            LoadEvent::PathResolved(Err(e)) => step == LoadStep::Finish(Err(e)),
            LoadEvent::PathResolved(Ok(true)) => step == LoadStep::ParseCached,
            LoadEvent::PathResolved(Ok(false)) => step == LoadStep::Download,
            LoadEvent::CachedParsed(Ok(blob)) => step == LoadStep::Finish(Ok(blob)),
            LoadEvent::CachedParsed(Err(_)) => step == LoadStep::DiscardCachedAndDownload,
            LoadEvent::Downloaded(Ok(path)) => step == LoadStep::ParseDownloaded(path),
            LoadEvent::Downloaded(Err(_)) => step == LoadStep::UseEmbedded,
            LoadEvent::DownloadedParsed(_, Ok(blob)) => step == LoadStep::Finish(Ok(blob)),
            LoadEvent::DownloadedParsed(path, Err(_)) => step
                == LoadStep::DiscardDownloadedAndUseEmbedded(path),
            LoadEvent::EmbeddedLoaded(blob) => step == LoadStep::Finish(Ok(blob)),
        },
        step matches LoadStep::Finish(Err(_)) ==> event matches LoadEvent::PathResolved(Err(_)),
{
    match event {
        LoadEvent::PathResolved(Err(e)) => LoadStep::Finish(Err(e)),
        LoadEvent::PathResolved(Ok(true)) => LoadStep::ParseCached,
        LoadEvent::PathResolved(Ok(false)) => LoadStep::Download,
        LoadEvent::CachedParsed(Ok(blob)) => LoadStep::Finish(Ok(blob)),
        LoadEvent::CachedParsed(Err(_)) => LoadStep::DiscardCachedAndDownload,
        LoadEvent::Downloaded(Ok(path)) => LoadStep::ParseDownloaded(path),
        LoadEvent::Downloaded(Err(_)) => LoadStep::UseEmbedded,
        LoadEvent::DownloadedParsed(_, Ok(blob)) => LoadStep::Finish(Ok(blob)),
        LoadEvent::DownloadedParsed(path, Err(_)) => LoadStep::DiscardDownloadedAndUseEmbedded(path),
        LoadEvent::EmbeddedLoaded(blob) => LoadStep::Finish(Ok(blob)),
    }
}

/// Parses a blob file that was read from `path`: a read failure (`Err`
/// with its reason) becomes an I/O error naming the path; the text read
/// is parsed by [`parse_blob`].
pub fn load_blob_and_call_parser(path: String, read: Result<String, String>) -> (res: Result<ParsedBlob, FidoMds3AttestationCaError>)
    ensures
        match read {
            Err(reason) => res matches Err(e) && e@ == ErrorModel::Io { path: path@, reason: reason@ },
            Ok(text) => match blob_outcome(encode_utf8(text@)) {
                Ok(records) => res matches Ok(blob) && entries_model(blob.cas@) == records
                    && blob.total_entries == blob.cas@.len(),
                Err(e) => res matches Err(err) && err@ == e,
            },
        },
{
    match read {
        Err(reason) => Err(FidoMds3AttestationCaError::IoError { path, reason }),
        Ok(text) => parse_blob(text.as_str()),
    }
}

} // verus!
