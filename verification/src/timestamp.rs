//! Instants of UTC time, held as seconds and nanoseconds since the Unix
//! epoch. The calendar is chrono's: this module asks it for the texts of an
//! instant and for the days between two of them.

use vstd::prelude::*;

verus! {

/// Whether chrono has a date and time for this count of seconds and
/// nanoseconds: what `DateTime::from_timestamp` says.
pub uninterp spec fn datetime_exists(secs: int, nanos: int) -> bool;

/// The RFC 3339 text of the instant, as `DateTime::<Utc>::to_rfc3339` gives it.
pub uninterp spec fn rfc3339_text(secs: int, nanos: int) -> Seq<char>;

/// The text of the instant under a strftime pattern, as
/// `DateTime::<Utc>::format` gives it.
pub uninterp spec fn strftime_text(secs: int, nanos: int, pattern: Seq<char>) -> Seq<char>;

/// The whole days from the first instant to the second, as chrono's
/// `TimeDelta::num_days` counts them for the difference of the two.
pub uninterp spec fn days_between(
    from_secs: int,
    from_nanos: int,
    to_secs: int,
    to_nanos: int,
) -> int;

/// The pattern of the date part of a manifest's file name.
pub open spec fn stamp_pattern() -> Seq<char> {
    "%Y%m%d_%H%M%S"@
}

/// `chrono::DateTime::from_timestamp`: whether it gives a date and time.
#[verifier::external_body]
fn chrono_has(secs: i64, nanos: u32) -> (r: bool)
    ensures
        r == datetime_exists(secs as int, nanos as int),
{
    chrono::DateTime::from_timestamp(secs, nanos).is_some()
}

/// `chrono::DateTime::to_rfc3339` of the instant, in UTC.
#[verifier::external_body]
fn chrono_rfc3339(secs: i64, nanos: u32) -> (text: String)
    requires
        datetime_exists(secs as int, nanos as int),
    ensures
        text@ == rfc3339_text(secs as int, nanos as int),
{
    chrono::DateTime::from_timestamp(secs, nanos).unwrap().to_rfc3339()
}

/// `chrono::DateTime::format` of the instant, in UTC, written out. The one
/// pattern admitted holds nothing that chrono refuses to format.
#[verifier::external_body]
fn chrono_format(secs: i64, nanos: u32, pattern: &str) -> (text: String)
    requires
        datetime_exists(secs as int, nanos as int),
        pattern@ == stamp_pattern(),
    ensures
        text@ == strftime_text(secs as int, nanos as int, pattern@),
{
    chrono::DateTime::from_timestamp(secs, nanos).unwrap().format(pattern).to_string()
}

/// The difference of two chrono instants, `to - from`, in whole days
/// (`TimeDelta::num_days`).
#[verifier::external_body]
fn chrono_days(from_secs: i64, from_nanos: u32, to_secs: i64, to_nanos: u32) -> (days: i64)
    requires
        datetime_exists(from_secs as int, from_nanos as int),
        datetime_exists(to_secs as int, to_nanos as int),
    ensures
        days == days_between(from_secs as int, from_nanos as int, to_secs as int, to_nanos as int),
{
    let from = chrono::DateTime::from_timestamp(from_secs, from_nanos).unwrap();
    let to = chrono::DateTime::from_timestamp(to_secs, to_nanos).unwrap();
    (to - from).num_days()
}

/// An instant of UTC time that chrono has a date for.
#[derive(Debug, Clone, Copy, PartialEq, Eq)]
pub struct Timestamp {
    secs: i64,
    nanos: u32,
}

impl Timestamp {
    #[verifier::type_invariant]
    spec fn has_date(self) -> bool {
        datetime_exists(self.secs as int, self.nanos as int)
    }

    /// Seconds since the Unix epoch.
    pub closed spec fn seconds(self) -> int {
        self.secs as int
    }

    /// Nanoseconds within the second.
    pub closed spec fn subsec(self) -> int {
        self.nanos as int
    }

    /// Whether `self` is later than `other`.
    pub open spec fn later_than(self, other: Timestamp) -> bool {
        self.seconds() > other.seconds() || (self.seconds() == other.seconds() && self.subsec()
            > other.subsec())
    }

    /// The RFC 3339 text of this instant.
    pub open spec fn rfc3339(self) -> Seq<char> {
        rfc3339_text(self.seconds(), self.subsec())
    }

    /// The date part of a manifest's file name: `YYYYMMDD_HHMMSS`.
    pub open spec fn stamp(self) -> Seq<char> {
        strftime_text(self.seconds(), self.subsec(), stamp_pattern())
    }

    /// The whole days from `self` to `now`.
    pub open spec fn days_to(self, now: Timestamp) -> int {
        days_between(self.seconds(), self.subsec(), now.seconds(), now.subsec())
    }

    /// The instant `secs` seconds and `nanos` nanoseconds after the epoch,
    /// if chrono has a date for it.
    pub fn new(secs: i64, nanos: u32) -> (r: Option<Timestamp>)
        ensures
            r is Some == datetime_exists(secs as int, nanos as int),
            r matches Some(t) ==> t.seconds() == secs && t.subsec() == nanos,
    {
        if chrono_has(secs, nanos) {
            Some(Timestamp { secs, nanos })
        } else {
            None
        }
    }

    /// Seconds since the Unix epoch.
    pub fn secs(&self) -> (secs: i64)
        ensures
            secs == self.seconds(),
    {
        self.secs
    }

    /// Nanoseconds within the second.
    pub fn nanos(&self) -> (nanos: u32)
        ensures
            nanos == self.subsec(),
    {
        self.nanos
    }

    /// Whether `self` is later than `other`.
    pub fn is_after(&self, other: &Timestamp) -> (r: bool)
        ensures
            r == self.later_than(*other),
    {
        self.secs > other.secs || (self.secs == other.secs && self.nanos > other.nanos)
    }

    /// The RFC 3339 text of this instant.
    pub fn to_rfc3339(&self) -> (text: String)
        ensures
            text@ == self.rfc3339(),
    {
        proof {
            use_type_invariant(self);
        }
        chrono_rfc3339(self.secs, self.nanos)
    }

    /// The date part of a manifest's file name: `YYYYMMDD_HHMMSS`.
    pub fn to_stamp(&self) -> (text: String)
        ensures
            text@ == self.stamp(),
    {
        proof {
            use_type_invariant(self);
        }
        chrono_format(self.secs, self.nanos, "%Y%m%d_%H%M%S")
    }

    /// The whole days from `self` to `now`.
    pub fn days_until(&self, now: &Timestamp) -> (days: i64)
        ensures
            days == self.days_to(*now),
    {
        proof {
            use_type_invariant(self);
            use_type_invariant(now);
        }
        chrono_days(self.secs, self.nanos, now.secs, now.nanos)
    }
}

} // verus!
