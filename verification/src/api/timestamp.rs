//! Timestamps, in milliseconds since the UNIX epoch.

use std::time::{Duration, SystemTime};
use chrono::TimeZone;
use vstd::prelude::*;

verus! {

/// A timestamp, in ms since the UNIX epoch.
pub type Timestamp = u64;

#[verifier::external_type_specification]
#[verifier::external_body]
pub struct ExSystemTime(SystemTime);

/// `SystemTime::now`: the current time of the system clock.
#[verifier::external_body]
fn system_time_now() -> SystemTime {
    SystemTime::now()
}

/// `SystemTime::duration_since(UNIX_EPOCH)`: the time elapsed since the
/// UNIX epoch, `None` if the clock is set before it.
#[verifier::external_body]
fn duration_since_unix_epoch(t: &SystemTime) -> Option<Duration> {
    t.duration_since(std::time::UNIX_EPOCH).ok()
}

/// `Duration::as_secs`: the whole seconds of `d`.
#[verifier::external_body]
fn duration_secs(d: &Duration) -> u64 {
    d.as_secs()
}

/// `Duration::subsec_millis`: the milliseconds of `d` beyond its whole
/// seconds, which std documents to be less than one thousand.
#[verifier::external_body]
fn duration_subsec_millis(d: &Duration) -> (ms: u32)
    ensures
        ms < 1000,
{
    d.subsec_millis()
}

/// The timestamp of `secs` seconds and `millis` milliseconds.
pub fn timestamp_from_parts(secs: u64, millis: u32) -> (ts: Option<Timestamp>)
    requires
        millis < 1000,
    ensures
        secs * 1000 + millis <= u64::MAX ==> ts == Some((secs * 1000 + millis) as u64),
        secs * 1000 + millis > u64::MAX ==> ts is None,
{
    if secs > (u64::MAX - 999) / 1000 {
        if secs > u64::MAX / 1000 {
            return None;
        }
        let base = secs * 1000;
        if base > u64::MAX - millis as u64 {
            return None;
        }
        return Some(base + millis as u64);
    }
    Some(secs * 1000 + millis as u64)
}

/// Return UTC timestamp in milliseconds, or `None` if the system clock is
/// set before the UNIX epoch (or so far after it that the milliseconds do
/// not fit in a `u64`). The value read depends on the clock alone.
pub fn timestamp_ms() -> Option<Timestamp> {
    let now = system_time_now();
    match duration_since_unix_epoch(&now) {
        Some(d) => {
            let secs = duration_secs(&d);
            let millis = duration_subsec_millis(&d);
            timestamp_from_parts(secs, millis)
        },
        None => None,
    }
}

/// What `chrono::Utc.datetime_from_str(s, fmt)` gives: the UTC time that
/// `s` writes in the format `fmt`, as whole seconds since the epoch and the
/// milliseconds beyond them, or `None` if `s` does not parse.
pub uninterp spec fn utc_datetime(s: Seq<char>, fmt: Seq<char>) -> Option<(i64, u32)>;

/// `chrono::TimeZone::datetime_from_str` of `Utc`, read back with
/// `DateTime::timestamp` and `DateTime::timestamp_subsec_millis`. The
/// contract names what it gives and states nothing more of it.
#[verifier::external_body]
fn utc_datetime_from_str(s: &str, fmt: &str) -> (r: Option<(i64, u32)>)
    ensures
        r == utc_datetime(s@, fmt@),
{
    #[allow(deprecated)]
    let parsed = chrono::Utc.datetime_from_str(s, fmt);
    match parsed {
        Ok(t) => Some((t.timestamp(), t.timestamp_subsec_millis())),
        Err(_) => None,
    }
}

/// The timestamp, in ms, of a UTC time given as whole seconds since the
/// epoch and the milliseconds beyond them, if it is not before the epoch
/// and fits in a `Timestamp`.
pub open spec fn utc_timestamp(parsed: Option<(i64, u32)>) -> Option<Timestamp> {
    match parsed {
        Some((secs, millis)) => if secs >= 0 && secs * 1000 + millis <= u64::MAX {
            Some((secs * 1000 + millis) as Timestamp)
        } else {
            None
        },
        None => None,
    }
}

/// The timestamp, in ms, of the UTC time that `s` writes in the format
/// `%FT%T.%fZ` (e.g. `2018-10-03T12:34:56.789Z`), if it is not before the
/// epoch and fits in a `Timestamp`.
pub open spec fn str_timestamp(s: Seq<char>) -> Option<Timestamp> {
    utc_timestamp(utc_datetime(s, "%FT%T.%fZ"@))
}

/// The timestamp, in ms, of a parsed UTC time (see `utc_timestamp`):
/// `None` if there is none, or if it is before the epoch or too far after
/// it.
pub fn timestamp_of_utc(parsed: Option<(i64, u32)>) -> (ts: Option<Timestamp>)
    ensures
        ts == utc_timestamp(parsed),
{
    match parsed {
        Some((secs, millis)) => {
            if secs < 0 {
                return None;
            }
            let secs = secs as u64;
            match secs.checked_mul(1000) {
                Some(base) => base.checked_add(millis as u64),
                None => None,
            }
        },
        None => None,
    }
}

/// Convert a UTC time written `%FT%T.%fZ` into a timestamp in ms: `None` if
/// `s` does not parse, or is before the epoch, or too far after it.
pub fn convert_str_timestamp(s: &str) -> (ts: Option<Timestamp>)
    ensures
        ts == str_timestamp(s@),
{
    timestamp_of_utc(utc_datetime_from_str(s, "%FT%T.%fZ"))
}

/// Wrapper around a type carrying an additionnal timestamp.
#[derive(Copy, Clone, PartialEq, Eq, Hash, Debug)]
pub struct Timestamped<T> {
    timestamp: Timestamp,
    inner: T,
}

impl<T> Timestamped<T> {
    /// The registered timestamp.
    pub closed spec fn spec_timestamp(self) -> Timestamp {
        self.timestamp
    }

    /// The wrapped value.
    pub closed spec fn spec_inner(self) -> T {
        self.inner
    }

    /// Registered timestamp.
    pub fn timestamp(&self) -> (ts: Timestamp)
        ensures
            ts == self.spec_timestamp(),
    {
        self.timestamp
    }

    /// Return the wrapped value.
    pub fn into_inner(self) -> (inner: T)
        ensures
            inner == self.spec_inner(),
    {
        self.inner
    }

    /// The wrapped value.
    pub fn inner(&self) -> (inner: &T)
        ensures
            *inner == self.spec_inner(),
    {
        &self.inner
    }
}

/// Values that can be wrapped with a timestamp.
pub trait IntoTimestamped: Sized {
    /// `self` with the current timestamp, or `None` if the system clock
    /// cannot be read as a timestamp (see `timestamp_ms`).
    fn timestamped(self) -> (t: Option<Timestamped<Self>>)
        ensures
            t matches Some(t) ==> t.spec_inner() == self,
    {
        match timestamp_ms() {
            Some(timestamp) => Some(Timestamped { timestamp, inner: self }),
            None => None,
        }
    }

    /// `self` with the given timestamp.
    fn with_timestamp(self, timestamp: Timestamp) -> (t: Timestamped<Self>)
        ensures
            t.spec_inner() == self,
            t.spec_timestamp() == timestamp,
    {
        Timestamped { timestamp, inner: self }
    }
}

impl<T: Sized> IntoTimestamped for T {
}

} // verus!
