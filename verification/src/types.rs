//! The data of a parsed metadata blob: the blob, its certificate-authority
//! entries, and the filter that selects trust anchors.
use serde_json::Value;
use std::sync::Arc;
use crate::ext::clock::{offset_from_unix_epoch, system_now, unix_offset};
use std::time::SystemTime;
use vstd::prelude::*;

verus! {

/// An instant in UTC as a Unix timestamp: whole seconds since
/// 1970-01-01T00:00:00Z and the nanoseconds past that second.
#[derive(Debug, Clone, Copy, PartialEq, Eq)]
pub struct UtcTimestamp {
    /// Whole seconds since the Unix epoch.
    pub unix_seconds: i64,
    /// Nanoseconds past `unix_seconds`.
    pub subsec_nanos: u32,
}

/// A parsed metadata blob: its certificate-authority entries and when it was parsed.
#[derive(Debug, Clone)]
pub struct ParsedBlob {
    /// When this value was created.
    pub generated_at: UtcTimestamp,
    /// Number of entries in `cas`.
    pub total_entries: usize,
    /// The certificate-authority entries.
    pub cas: Vec<CaEntry>,
}

/// One attestation root certificate of an authenticator, with the metadata
/// that describes the authenticator.
#[derive(Debug, Clone, Default)]
pub struct CaEntry {
    /// AAGUID (or, for U2F authenticators, AAID) of the authenticator.
    pub aaguid: Option<String>,
    /// Human-readable device name.
    pub device_name: String,
    /// Subject of the root certificate.
    pub subject: String,
    /// PEM-encoded root certificate.
    pub certificate_pem: String,
    /// SHA-256 fingerprint of the certificate, in lower-case hexadecimal.
    pub fingerprint: String,
    /// Start of the certificate's validity (RFC 3339).
    pub not_before: String,
    /// End of the certificate's validity (RFC 3339).
    pub not_after: String,
    /// Supported attestation types (`basic_full`, `basic_surrogate`, ...).
    pub attestation_types: Vec<String>,
    /// Protocol family (`fido2`, `u2f`, ...).
    pub protocol_family: String,
    /// The metadata entry this record was made from.
    pub raw_data: Option<Arc<Value>>,
}

/// Which trust anchors an attestation CA list keeps.
#[derive(Debug, Clone, Copy, PartialEq, Eq)]
pub enum AttestationFilter {
    /// All attestation root certificates found in the metadata.
    TrustAnchors,
    /// Only those of authenticators whose latest status is a FIDO certification.
    FidoCertifiedTrustAnchorsOnly,
}

/// The Unix epoch.
pub open spec fn epoch_timestamp() -> UtcTimestamp {
    UtcTimestamp { unix_seconds: 0, subsec_nanos: 0 }
}

/// The timestamp of an instant given by its distance from the Unix epoch:
/// `Ok` with seconds and nanoseconds after it, `Err` with those before it.
/// An instant whose seconds do not fit in `i64` gives the epoch.
pub open spec fn timestamp_of(offset: Result<(u64, u32), (u64, u32)>) -> UtcTimestamp {
    match offset {
        Ok((s, n)) => if s <= i64::MAX {
            UtcTimestamp { unix_seconds: s as i64, subsec_nanos: n }
        } else {
            epoch_timestamp()
        },
        Err((s, n)) => if n == 0 {
            if s <= i64::MAX {
                UtcTimestamp { unix_seconds: (0 - s) as i64, subsec_nanos: 0 }
            } else {
                epoch_timestamp()
            }
        } else {
            if s < i64::MAX {
                UtcTimestamp { unix_seconds: (0 - s - 1) as i64, subsec_nanos: (1_000_000_000 - n) as u32 }
            } else {
                epoch_timestamp()
            }
        },
    }
}

/// The offset, in nanoseconds, that a distance from the epoch stands for.
pub open spec fn offset_nanos(offset: Result<(u64, u32), (u64, u32)>) -> int {
    match offset {
        Ok((s, n)) => s * 1_000_000_000 + n,
        Err((s, n)) => 0 - (s * 1_000_000_000 + n),
    }
}

/// Whether the seconds of a distance from the epoch fit a timestamp.
pub open spec fn offset_in_range(offset: Result<(u64, u32), (u64, u32)>) -> bool {
    match offset {
        Ok((s, _)) => s <= i64::MAX,
        Err((s, n)) => if n == 0 {
            s <= i64::MAX
        } else {
            s < i64::MAX
        },
    }
}

/// The timestamp of an instant given by its distance from the Unix epoch.
/// Within range it stands for the same instant, down to the nanosecond,
/// with the nanoseconds below one second; out of range it is the epoch.
pub fn utc_timestamp_of(offset: Result<(u64, u32), (u64, u32)>) -> (res: UtcTimestamp)
    requires
        match offset {
            Ok((_, n)) => n < 1_000_000_000,
            Err((_, n)) => n < 1_000_000_000,
        },
    ensures
        res == timestamp_of(offset),
        res.subsec_nanos < 1_000_000_000,
        offset_in_range(offset) ==> res.unix_seconds * 1_000_000_000 + res.subsec_nanos
            == offset_nanos(offset),
{
    match offset {
        Ok((s, n)) => if s <= i64::MAX as u64 {
            UtcTimestamp { unix_seconds: s as i64, subsec_nanos: n }
        } else {
            UtcTimestamp { unix_seconds: 0, subsec_nanos: 0 }
        },
        Err((s, n)) => if n == 0 {
            if s <= i64::MAX as u64 {
                UtcTimestamp { unix_seconds: 0 - (s as i64), subsec_nanos: 0 }
            } else {
                UtcTimestamp { unix_seconds: 0, subsec_nanos: 0 }
            }
        } else {
            if s < i64::MAX as u64 {
                let res = UtcTimestamp { unix_seconds: 0 - (s as i64) - 1, subsec_nanos: 1_000_000_000 - n };
                assert((0 - s - 1) * 1_000_000_000 + (1_000_000_000 - n) == 0 - (s * 1_000_000_000 + n))
                    by (nonlinear_arith);
                res
            } else {
                UtcTimestamp { unix_seconds: 0, subsec_nanos: 0 }
            }
        },
    }
}

/// Whether a timestamp is what the system clock gives at some instant: the
/// timestamp of that instant's distance from the Unix epoch.
pub open spec fn is_clock_reading(ts: UtcTimestamp) -> bool {
    exists|t: SystemTime| ts == #[trigger] timestamp_of(unix_offset(t))
}

/// The current time, read from the system clock; an instant before the
/// Unix epoch gives a negative timestamp.
pub fn current_timestamp() -> (res: UtcTimestamp)
    ensures
        res.subsec_nanos < 1_000_000_000,
        is_clock_reading(res),
{
    let now = system_now();
    let offset = offset_from_unix_epoch(&now);
    let res = utc_timestamp_of(offset);
    assert(res == timestamp_of(unix_offset(now)));
    res
}

impl Default for ParsedBlob {
    /// An empty blob, made now.
    fn default() -> (res: Self)
        ensures
            res.total_entries == 0,
            res.cas@.len() == 0,
            is_clock_reading(res.generated_at),
    {
        ParsedBlob { generated_at: current_timestamp(), total_entries: 0, cas: Vec::new() }
    }
}

/// A [`CaEntry`] with its strings seen as character sequences.
pub struct CaEntryModel {
    pub aaguid: Option<Seq<char>>,
    pub device_name: Seq<char>,
    pub subject: Seq<char>,
    pub certificate_pem: Seq<char>,
    pub fingerprint: Seq<char>,
    pub not_before: Seq<char>,
    pub not_after: Seq<char>,
    pub attestation_types: Seq<Seq<char>>,
    pub protocol_family: Seq<char>,
    pub raw_data: Option<Value>,
}

/// The text of an optional string.
pub open spec fn opt_string_view(s: Option<String>) -> Option<Seq<char>> {
    match s {
        Some(t) => Some(t@),
        None => None,
    }
}

/// The JSON value behind an optional shared handle.
pub open spec fn raw_value(r: Option<Arc<Value>>) -> Option<Value> {
    match r {
        Some(v) => Some(*v),
        None => None,
    }
}

impl View for CaEntry {
    type V = CaEntryModel;

    open spec fn view(&self) -> CaEntryModel {
        CaEntryModel {
            aaguid: opt_string_view(self.aaguid),
            device_name: self.device_name@,
            subject: self.subject@,
            certificate_pem: self.certificate_pem@,
            fingerprint: self.fingerprint@,
            not_before: self.not_before@,
            not_after: self.not_after@,
            attestation_types: self.attestation_types.deep_view(),
            protocol_family: self.protocol_family@,
            raw_data: raw_value(self.raw_data),
        }
    }
}

/// The models of a sequence of entries.
pub open spec fn entries_model(v: Seq<CaEntry>) -> Seq<CaEntryModel> {
    v.map_values(|e: CaEntry| e@)
}

} // verus!
