//! Points in time as seconds and nanoseconds since the Unix epoch (UTC),
//! read and written by the `chrono` crate.

use vstd::prelude::*;

verus! {

/// A point in time: whole seconds since 1970-01-01T00:00:00Z and the
/// nanoseconds past that second.
#[derive(Debug, Clone, Copy, PartialEq, Eq, Structural)]
pub struct Timestamp {
    pub seconds: i64,
    pub nanos: u32,
}

/// The RFC 3339 text that `chrono` writes for a time, if it can represent it.
pub uninterp spec fn rfc3339_text(seconds: i64, nanos: u32) -> Option<Seq<char>>;

/// The instant that `chrono` reads from an RFC 3339 text, or the message
/// of its error.
pub uninterp spec fn rfc3339_time(text: Seq<char>) -> Result<(i64, u32), Seq<char>>;

/// Calls `chrono::Utc::now`; which time it is, is not specified. It is
/// read as whole seconds since the epoch and the nanoseconds past them, so
/// it is not before the epoch and has fewer than a billion nanoseconds.
#[verifier::external_body]
pub(crate) fn now() -> (t: Timestamp)
    ensures
        t.seconds >= 0,
        t.nanos < 1_000_000_000,
{
    let t = chrono::Utc::now();
    Timestamp { seconds: t.timestamp(), nanos: t.timestamp_subsec_nanos() }
}

/// Whether `chrono` can represent a time as a `DateTime<Utc>`.
pub uninterp spec fn chrono_represents(seconds: i64, nanos: u32) -> bool;

/// Calls `chrono::DateTime::from_timestamp`: whether it gives a time; the
/// answer is named `chrono_represents`.
#[verifier::external_body]
pub(crate) fn represents(seconds: i64, nanos: u32) -> (r: bool)
    ensures
        r == chrono_represents(seconds, nanos),
{
    chrono::DateTime::from_timestamp(seconds, nanos).is_some()
}

/// The time lies in the years 0000 to 9999, the years that RFC 3339 writes
/// with four digits.
pub open spec fn in_rfc3339_years(seconds: i64) -> bool {
    -62167219200 <= seconds <= 253402300799
}

/// A time whose RFC 3339 text reads back as the time: in the years 0000 to
/// 9999, with fewer than a billion nanoseconds, or fewer than two billion
/// in the last second of a minute (a leap second).
pub open spec fn writes_readably(t: Timestamp) -> bool {
    &&& in_rfc3339_years(t.seconds)
    &&& (t.nanos < 1_000_000_000 || (t.seconds % 60 == 59 && t.nanos < 2_000_000_000))
}

/// Calls `chrono::DateTime::from_timestamp` and then `to_rfc3339`; the text
/// is named `rfc3339_text`, absent exactly when `chrono` cannot represent
/// the time. Every time of the years 0000 to 9999 with fewer than a
/// billion nanoseconds, or fewer than two billion in the last second of a
/// minute, is represented, and its text, which then has a
/// four-digit year, reads back with `parse_from_rfc3339` as the same
/// seconds and nanoseconds (a leap second included). Nothing is said of
/// what is read back from the text of a year outside that range.
#[verifier::external_body]
pub(crate) fn rfc3339_of(t: Timestamp) -> (r: Option<String>)
    ensures
        match r {
            Some(s) => rfc3339_text(t.seconds, t.nanos) == Some(s@),
            None => rfc3339_text(t.seconds, t.nanos) is None,
        },
        r is Some == chrono_represents(t.seconds, t.nanos),
        r is Some || !writes_readably(t),
        r matches Some(s) ==> (in_rfc3339_years(t.seconds) ==> rfc3339_time(s@) is Ok && rfc3339_time(s@)->Ok_0 == (t.seconds, t.nanos)),
{
    match chrono::DateTime::from_timestamp(t.seconds, t.nanos) {
        Some(d) => Some(d.to_rfc3339()),
        None => None,
    }
}

/// Calls `chrono::DateTime::parse_from_rfc3339` and reads the instant as
/// seconds and nanoseconds, or the error's message; the result is named
/// `rfc3339_time`.
#[verifier::external_body]
pub(crate) fn parse_rfc3339(s: &str) -> (r: Result<Timestamp, String>)
    ensures
        match r {
            Ok(t) => rfc3339_time(s@) == Ok::<(i64, u32), Seq<char>>((t.seconds, t.nanos)),
            Err(e) => rfc3339_time(s@) == Err::<(i64, u32), Seq<char>>(e@),
        },
{
    match chrono::DateTime::parse_from_rfc3339(s) {
        Ok(d) => Ok(Timestamp { seconds: d.timestamp(), nanos: d.timestamp_subsec_nanos() }),
        Err(e) => Err(e.to_string()),
    }
}

} // verus!
