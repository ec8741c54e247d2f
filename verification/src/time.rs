//! Points in time.

use vstd::prelude::*;

verus! {

/// A point in time, in nanoseconds since the Unix epoch, between the first instant of the year
/// -262143 and the last of the year 262142.
#[derive(Debug, Clone, Copy, PartialEq, Eq)]
pub struct Timestamp {
    nanos: i128,
}

impl View for Timestamp {
    type V = int;

    closed spec fn view(&self) -> int {
        self.nanos as int
    }
}

/// The nanoseconds since the Unix epoch that are a point in time.
pub open spec fn in_calendar(nanos: int) -> bool {
    -8_334_601_228_800_000_000_000 <= nanos <= 8_210_266_876_799_999_999_999
}

/// The whole milliseconds in a span of nanoseconds, rounded toward zero.
pub open spec fn whole_millis(nanos: int) -> int {
    if nanos >= 0 {
        nanos / 1_000_000
    } else {
        -((-nanos) / 1_000_000)
    }
}

impl Timestamp {
    #[verifier::type_invariant]
    spec fn well_formed(self) -> bool {
        in_calendar(self.nanos as int)
    }

    /// The point in time that is the given number of nanoseconds after the Unix epoch.
    pub fn from_unix_nanos(nanos: i128) -> (r: Option<Timestamp>)
        ensures
            r is Some <==> in_calendar(nanos as int),
            r matches Some(t) ==> t@ == nanos,
    {
        if -8_334_601_228_800_000_000_000 <= nanos && nanos <= 8_210_266_876_799_999_999_999 {
            Some(Timestamp { nanos })
        } else {
            None
        }
    }

    /// The number of nanoseconds since the Unix epoch.
    pub fn unix_nanos(&self) -> (r: i128)
        ensures
            r == self@,
            in_calendar(self@),
    {
        proof {
            use_type_invariant(self);
        }
        self.nanos
    }

    /// The whole milliseconds from this point in time to a later one, rounded toward zero. The
    /// result is negative when the other point is earlier.
    pub fn millis_until(&self, later: Timestamp) -> (r: i64)
        ensures
            r == whole_millis(later@ - self@),
    {
        let span: i128 = later.unix_nanos() - self.unix_nanos();
        if span >= 0 {
            (span / 1_000_000) as i64
        } else {
            -(((-span) / 1_000_000) as i64)
        }
    }

    /// The point in time the given number of milliseconds later.
    pub fn plus_millis(&self, millis: u64) -> (r: Timestamp)
        requires
            in_calendar(self@ + millis * 1_000_000),
        ensures
            r@ == self@ + millis * 1_000_000,
    {
        Timestamp { nanos: self.nanos + (millis as i128) * 1_000_000 }
    }

    /// The whole seconds since the Unix epoch, and the nanoseconds beyond them.
    pub fn unix_seconds(&self) -> (r: (i64, u32))
        ensures
            r.0 == self@ / 1_000_000_000,
            r.1 == self@ % 1_000_000_000,
            in_calendar(self@),
    {
        let nanos: i128 = self.unix_nanos();
        if nanos >= 0 {
            return ((nanos / 1_000_000_000) as i64, (nanos % 1_000_000_000) as u32);
        }
        let seconds: i128 = -((-nanos + 999_999_999) / 1_000_000_000);
        (seconds as i64, (nanos - seconds * 1_000_000_000) as u32)
    }

    /// The point in time as date and time of day, to the second.
    pub fn calendar_format(&self) -> (r: String)
        ensures
            r@ == calendar_text(self@),
    {
        let (seconds, nanos) = self.unix_seconds();
        format_calendar(seconds, nanos)
    }

    /// The point in time in the form of RFC 3339.
    pub fn to_rfc3339(&self) -> (r: String)
        ensures
            r@ == rfc3339_text(self@),
    {
        let (seconds, nanos) = self.unix_seconds();
        format_rfc3339(seconds, nanos)
    }

    /// The point in time in the form of RFC 3339, with `Z` for UTC.
    pub fn to_rfc3339_z(&self) -> (r: String)
        ensures
            r@ == rfc3339_z_text(self@),
    {
        let (seconds, nanos) = self.unix_seconds();
        format_rfc3339_z(seconds, nanos)
    }
}

/// A point in time as date and time of day, by the seconds since the Unix epoch and the nanoseconds
/// beyond them, as `chrono` formats it with `%Y-%m-%d %H:%M:%S`.
pub uninterp spec fn chrono_calendar(seconds: i64, nanos: u32) -> Seq<char>;

/// `chrono::DateTime::format` with `%Y-%m-%d %H:%M:%S`, in UTC. The contract names the text; it is
/// a function of the point in time alone. The point in time is one that `chrono` can hold.
#[verifier::external_body]
fn format_calendar(seconds: i64, nanos: u32) -> (r: String)
    requires
        nanos < 1_000_000_000,
        in_calendar(seconds * 1_000_000_000 + nanos),
    ensures
        r@ == chrono_calendar(seconds, nanos),
{
    chrono::DateTime::<chrono::Utc>::from_timestamp(seconds, nanos)
        .map(|at| at.format("%Y-%m-%d %H:%M:%S").to_string())
        .unwrap_or_default()
}

/// A point in time in the form of RFC 3339, by the seconds since the Unix epoch and the nanoseconds
/// beyond them, as `chrono` formats it.
pub uninterp spec fn chrono_rfc3339(seconds: i64, nanos: u32) -> Seq<char>;

/// `chrono::DateTime::to_rfc3339`, in UTC. The contract names the text; it is a function of the
/// point in time alone. The point in time is one that `chrono` can hold.
#[verifier::external_body]
fn format_rfc3339(seconds: i64, nanos: u32) -> (r: String)
    requires
        nanos < 1_000_000_000,
        in_calendar(seconds * 1_000_000_000 + nanos),
    ensures
        r@ == chrono_rfc3339(seconds, nanos),
{
    chrono::DateTime::<chrono::Utc>::from_timestamp(seconds, nanos)
        .map(|at| at.to_rfc3339())
        .unwrap_or_default()
}

/// A point in time in the form of RFC 3339 with `Z` for UTC, by the seconds since the Unix epoch and
/// the nanoseconds beyond them, as `chrono` formats it.
pub uninterp spec fn chrono_rfc3339_z(seconds: i64, nanos: u32) -> Seq<char>;

/// `chrono::DateTime::to_rfc3339_opts` with as many digits of the second as are needed and `Z` for
/// UTC, which is how `chrono` serialises a point in time. The contract names the text; it is a
/// function of the point in time alone. The point in time is one that `chrono` can hold.
#[verifier::external_body]
fn format_rfc3339_z(seconds: i64, nanos: u32) -> (r: String)
    requires
        nanos < 1_000_000_000,
        in_calendar(seconds * 1_000_000_000 + nanos),
    ensures
        r@ == chrono_rfc3339_z(seconds, nanos),
{
    chrono::DateTime::<chrono::Utc>::from_timestamp(seconds, nanos)
        .map(|at| at.to_rfc3339_opts(chrono::SecondsFormat::AutoSi, true))
        .unwrap_or_default()
}

/// A point in time as date and time of day, to the second.
pub open spec fn calendar_text(at: int) -> Seq<char> {
    chrono_calendar((at / 1_000_000_000) as i64, (at % 1_000_000_000) as u32)
}

/// A point in time in the form of RFC 3339.
pub open spec fn rfc3339_text(at: int) -> Seq<char> {
    chrono_rfc3339((at / 1_000_000_000) as i64, (at % 1_000_000_000) as u32)
}

/// A point in time in the form of RFC 3339, with `Z` for UTC.
pub open spec fn rfc3339_z_text(at: int) -> Seq<char> {
    chrono_rfc3339_z((at / 1_000_000_000) as i64, (at % 1_000_000_000) as u32)
}

/// The view of an optional point in time.
pub open spec fn opt_time(t: Option<Timestamp>) -> Option<int> {
    match t {
        Some(t) => Some(t@),
        None => None,
    }
}

/// Whole milliseconds are those that a span has in full, forward and backward alike.
pub proof fn lemma_millis_are_whole(nanos: int)
    requires
        nanos >= 0,
    ensures
        whole_millis(nanos) * 1_000_000 <= nanos < (whole_millis(nanos) + 1) * 1_000_000,
        whole_millis(-nanos) == -whole_millis(nanos),
{
}

/// The texts of a point in time are those of its whole seconds and of the nanoseconds beyond them.
pub proof fn lemma_texts_are_of_the_instant(seconds: i64, nanos: u32)
    requires
        nanos < 1_000_000_000,
    ensures
        calendar_text(seconds * 1_000_000_000 + nanos) == chrono_calendar(seconds, nanos),
        rfc3339_text(seconds * 1_000_000_000 + nanos) == chrono_rfc3339(seconds, nanos),
        rfc3339_z_text(seconds * 1_000_000_000 + nanos) == chrono_rfc3339_z(seconds, nanos),
{
}

/// An optional point in time is modelled by the point in time, where there is one.
pub proof fn lemma_optional_time(t: Timestamp)
    ensures
        opt_time(Some(t)) == Some(t@),
        opt_time(None) is None,
{
}

} // verus!
