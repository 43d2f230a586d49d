//! The system clock and `chrono`'s RFC 3339 text of a Unix timestamp.
//!
//! `chrono::DateTime` is generic over a time-zone trait that cannot be
//! declared here, so instants cross this boundary as Unix timestamps.
use chrono::{LocalResult, SecondsFormat, TimeZone, Utc};
use std::time::{SystemTime, UNIX_EPOCH};
use vstd::prelude::*;

verus! {

#[verifier::external_type_specification]
#[verifier::external_body]
pub struct ExSystemTime(std::time::SystemTime);

/// Where an instant stands from the Unix epoch, as `SystemTime::duration_since(UNIX_EPOCH)`
/// gives it: `Ok` with the whole seconds and nanoseconds after the epoch,
/// or `Err` with those before it (the duration that its error carries).
pub uninterp spec fn unix_offset(t: SystemTime) -> Result<(u64, u32), (u64, u32)>;

/// What `Utc.timestamp_opt(secs, 0)` followed, on its `Single` result, by
/// `to_rfc3339_opts(SecondsFormat::Secs, true)` writes; `None` for a
/// timestamp out of chrono's range (for `Utc` it never gives `Ambiguous`).
pub uninterp spec fn utc_rfc3339(secs: i64) -> Option<Seq<char>>;

/// `SystemTime::now`: the current time, of which nothing is promised. It
/// does not panic.
#[verifier::external_body]
pub(crate) fn system_now() -> SystemTime {
    SystemTime::now()
}

/// `SystemTime::duration_since(UNIX_EPOCH)`, its `Duration` split into
/// seconds and nanoseconds; for an instant before the epoch, the
/// `Duration` of its error (`SystemTimeError::duration`), which is how far
/// before the epoch the instant lies. A `Duration`'s nanoseconds are below
/// one second.
#[verifier::external_body]
pub(crate) fn offset_from_unix_epoch(t: &SystemTime) -> (res: Result<(u64, u32), (u64, u32)>)
    ensures
        res == unix_offset(*t),
        match res {
            Ok((_, n)) => n < 1_000_000_000,
            Err((_, n)) => n < 1_000_000_000,
        },
{
    match t.duration_since(UNIX_EPOCH) {
        Ok(d) => Ok((d.as_secs(), d.subsec_nanos())),
        Err(e) => Err((e.duration().as_secs(), e.duration().subsec_nanos())),
    }
}

/// `Utc.timestamp_opt(secs, 0)` and, on an instant, its RFC 3339 text with
/// whole seconds and a `Z` suffix.
#[verifier::external_body]
pub(crate) fn rfc3339_of_timestamp(secs: i64) -> (res: Option<String>)
    ensures
        match res {
            Some(s) => utc_rfc3339(secs) == Some(s@),
            None => utc_rfc3339(secs) is None,
        },
{
    match Utc.timestamp_opt(secs, 0) {
        LocalResult::Single(t) => Some(t.to_rfc3339_opts(SecondsFormat::Secs, true)),
        LocalResult::Ambiguous(_, _) => None,
        LocalResult::None => None,
    }
}

} // verus!
