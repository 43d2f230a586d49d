//! The error type of the library and the text that describes each error.
use crate::ext::codec::{decode_error_message, decode_error_text};
use crate::ext::json::{json_error_message, json_error_text};
use crate::ext::paths::{path_message, path_text};
use base64::DecodeError;
use std::path::PathBuf;
use vstd::prelude::*;
use vstd::string::*;

verus! {

/// The errors that downloading, loading and parsing the metadata blob can give.
#[derive(Debug)]
pub enum FidoMds3AttestationCaError {
    /// The JWT blob does not have the `header.payload.signature` shape.
    InvalidJwtError(String),
    /// Base64 decoding of a JWT part failed.
    Base64Error(DecodeError),
    /// The JWT payload is not valid JSON.
    JsonError(serde_json::Error),
    /// An expected field is missing from the metadata blob.
    MissingFieldError(String),
    /// The JWT payload is not valid UTF-8.
    InvalidUtf8Error,
    /// A file operation failed.
    IoError {
        /// Path of the file.
        path: String,
        /// What went wrong.
        reason: String,
    },
    /// The metadata blob file is not where it was expected.
    FileNotFoundError(PathBuf),
    /// A CA list file has an unknown extension.
    UnknownExtensionError(String),
    /// The FIDO server rate-limited the download (HTTP 429).
    RateLimitedError,
    /// No CA list is available and the embedded fallback is disabled.
    NoFallbackError,
    /// Converting metadata into WebAuthn structures failed.
    WebauthnConversionError(String),
    /// Interpreting a metadata structure failed.
    ParsingError(String),
    /// Extracting trust anchors from the parsed blob failed.
    ExtractionError(String),
    /// A device's certificate is not valid Base64.
    Base64DecodeError {
        /// Name of the device whose certificate failed to decode.
        device_name: String,
        /// What the decoder reported.
        reason: String,
    },
    /// Downloading the metadata blob failed.
    DownloadError(String),
    /// The per-user data path could not be resolved.
    UniversalPathError(String),
}

/// A result whose error is [`FidoMds3AttestationCaError`].
pub type FidoMds3AttestationCaResult<T> = Result<T, FidoMds3AttestationCaError>;

/// [`FidoMds3AttestationCaError`] with its strings seen as character sequences.
pub enum ErrorModel {
    InvalidJwt(Seq<char>),
    Base64(DecodeError),
    Json(serde_json::Error),
    MissingField(Seq<char>),
    InvalidUtf8,
    Io { path: Seq<char>, reason: Seq<char> },
    FileNotFound(PathBuf),
    UnknownExtension(Seq<char>),
    RateLimited,
    NoFallback,
    WebauthnConversion(Seq<char>),
    Parsing(Seq<char>),
    Extraction(Seq<char>),
    Base64Decode { device_name: Seq<char>, reason: Seq<char> },
    Download(Seq<char>),
    UniversalPath(Seq<char>),
}

impl View for FidoMds3AttestationCaError {
    type V = ErrorModel;

    open spec fn view(&self) -> ErrorModel {
        match self {
            FidoMds3AttestationCaError::InvalidJwtError(s) => ErrorModel::InvalidJwt(s@),
            FidoMds3AttestationCaError::Base64Error(e) => ErrorModel::Base64(*e),
            FidoMds3AttestationCaError::JsonError(e) => ErrorModel::Json(*e),
            FidoMds3AttestationCaError::MissingFieldError(s) => ErrorModel::MissingField(s@),
            FidoMds3AttestationCaError::InvalidUtf8Error => ErrorModel::InvalidUtf8,
            FidoMds3AttestationCaError::IoError { path, reason } => ErrorModel::Io {
                path: path@,
                reason: reason@,
            },
            FidoMds3AttestationCaError::FileNotFoundError(p) => ErrorModel::FileNotFound(*p),
            FidoMds3AttestationCaError::UnknownExtensionError(s) => ErrorModel::UnknownExtension(
                s@,
            ),
            FidoMds3AttestationCaError::RateLimitedError => ErrorModel::RateLimited,
            FidoMds3AttestationCaError::NoFallbackError => ErrorModel::NoFallback,
            FidoMds3AttestationCaError::WebauthnConversionError(s) => ErrorModel::WebauthnConversion(
                s@,
            ),
            FidoMds3AttestationCaError::ParsingError(s) => ErrorModel::Parsing(s@),
            FidoMds3AttestationCaError::ExtractionError(s) => ErrorModel::Extraction(s@),
            FidoMds3AttestationCaError::Base64DecodeError { device_name, reason } =>
                ErrorModel::Base64Decode { device_name: device_name@, reason: reason@ },
            FidoMds3AttestationCaError::DownloadError(s) => ErrorModel::Download(s@),
            FidoMds3AttestationCaError::UniversalPathError(s) => ErrorModel::UniversalPath(s@),
        }
    }
}

/// The human-readable text of an error.
pub open spec fn error_text(e: ErrorModel) -> Seq<char> {
    match e {
        ErrorModel::InvalidJwt(s) => "Invalid JWT structure: "@ + s,
        ErrorModel::Base64(d) => "Base64 decode failed: "@ + decode_error_text(d),
        ErrorModel::Json(j) => "JSON serialization/deserialization failed: "@ + json_error_text(j),
        ErrorModel::MissingField(s) => "Missing expected field in MDS blob: "@ + s,
        ErrorModel::InvalidUtf8 => "Invalid UTF-8 sequence in payload"@,
        ErrorModel::Io { path, reason } => "IO error at "@ + path + ": "@ + reason,
        ErrorModel::FileNotFound(p) => "File not found at path: "@ + path_text(p),
        ErrorModel::UnknownExtension(s) => "Unknown file extension for CA list: "@ + s,
        ErrorModel::RateLimited =>
            "FIDO server rate-limited the request (429). Please wait before retrying."@,
        ErrorModel::NoFallback => "No CA list found and embedded fallback is disabled"@,
        ErrorModel::WebauthnConversion(s) => "WebAuthn-rs conversion error: "@ + s,
        ErrorModel::Parsing(s) => "Parsing error: "@ + s,
        ErrorModel::Extraction(s) => "Extraction error: "@ + s,
        ErrorModel::Base64Decode { device_name, reason } => "Base64 decode failed for device "@
            + device_name + ": "@ + reason,
        ErrorModel::Download(s) => "Blob download failed: "@ + s,
        ErrorModel::UniversalPath(s) => "Universal Path Error: "@ + s,
    }
}

/// `prefix` followed by `rest`.
fn joined(prefix: &str, rest: &str) -> (res: String)
    ensures
        res@ == prefix@ + rest@,
{
    let mut s = String::from_str(prefix);
    s.append(rest);
    s
}

impl FidoMds3AttestationCaError {
    /// The human-readable text of the error, the one its `Display` form shows.
    pub fn message(&self) -> (res: String)
        ensures
            res@ == error_text(self@),
    {
        match self {
            FidoMds3AttestationCaError::InvalidJwtError(s) => joined(
                "Invalid JWT structure: ",
                s.as_str(),
            ),
            FidoMds3AttestationCaError::Base64Error(e) => {
                let d = decode_error_message(e);
                joined("Base64 decode failed: ", d.as_str())
            },
            FidoMds3AttestationCaError::JsonError(e) => {
                let d = json_error_message(e);
                joined("JSON serialization/deserialization failed: ", d.as_str())
            },
            FidoMds3AttestationCaError::MissingFieldError(s) => joined(
                "Missing expected field in MDS blob: ",
                s.as_str(),
            ),
            FidoMds3AttestationCaError::InvalidUtf8Error => String::from_str(
                "Invalid UTF-8 sequence in payload",
            ),
            FidoMds3AttestationCaError::IoError { path, reason } => {
                let mut m = joined("IO error at ", path.as_str());
                m.append(": ");
                m.append(reason.as_str());
                m
            },
            FidoMds3AttestationCaError::FileNotFoundError(p) => {
                let d = path_message(p);
                joined("File not found at path: ", d.as_str())
            },
            FidoMds3AttestationCaError::UnknownExtensionError(s) => joined(
                "Unknown file extension for CA list: ",
                s.as_str(),
            ),
            FidoMds3AttestationCaError::RateLimitedError => String::from_str(
                "FIDO server rate-limited the request (429). Please wait before retrying.",
            ),
            FidoMds3AttestationCaError::NoFallbackError => String::from_str(
                "No CA list found and embedded fallback is disabled",
            ),
            FidoMds3AttestationCaError::WebauthnConversionError(s) => joined(
                "WebAuthn-rs conversion error: ",
                s.as_str(),
            ),
            FidoMds3AttestationCaError::ParsingError(s) => joined("Parsing error: ", s.as_str()),
            FidoMds3AttestationCaError::ExtractionError(s) => joined(
                "Extraction error: ",
                s.as_str(),
            ),
            FidoMds3AttestationCaError::Base64DecodeError { device_name, reason } => {
                let mut m = joined("Base64 decode failed for device ", device_name.as_str());
                m.append(": ");
                m.append(reason.as_str());
                m
            },
            FidoMds3AttestationCaError::DownloadError(s) => joined(
                "Blob download failed: ",
                s.as_str(),
            ),
            FidoMds3AttestationCaError::UniversalPathError(s) => joined(
                "Universal Path Error: ",
                s.as_str(),
            ),
        }
    }
}

} // verus!
