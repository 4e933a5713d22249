//! Instants in UTC and their RFC 3339 text.

use chrono::{DateTime, SecondsFormat, Timelike, Utc};
use vstd::prelude::*;

verus! {

/// The first second that an instant can name: midnight of January 1 of the year -262143.
pub const MIN_SECONDS: i64 = -8_334_601_228_800;

/// The last second that an instant can name: the end of December 31 of the year 262142.
pub const MAX_SECONDS: i64 = 8_210_266_876_799;

/// The first second of the year 0.
pub const FIRST_FOUR_DIGIT_SECOND: i64 = -62_167_219_200;

/// The last second of the year 9999.
pub const LAST_FOUR_DIGIT_SECOND: i64 = 253_402_300_799;

/// Whether seconds since the epoch and nanoseconds within the second name an instant.
/// A nanosecond count of a billion and more stands for the second that follows, which after
/// the last second of a minute is a leap second.
pub open spec fn representable(seconds: i64, nanos: u32) -> bool {
    &&& MIN_SECONDS <= seconds <= MAX_SECONDS
    &&& nanos < 2_000_000_000
}

/// Whether nanoseconds within a second count on into the next second of the same minute.
pub open spec fn runs_over(seconds: i64, nanos: u32) -> bool {
    nanos >= 1_000_000_000 && seconds as int % 60 != 59
}

/// The nanoseconds of an instant, cut off to whole milliseconds.
pub open spec fn whole_millis(nanos: u32) -> u32 {
    (nanos - nanos % 1_000_000) as u32
}

/// The text that `DateTime::to_rfc3339_opts` gives for an instant in UTC, with
/// milliseconds and a numeric offset.
pub uninterp spec fn rfc3339_millis(seconds: i64, nanos: u32) -> Seq<char>;

/// The instant that `DateTime::parse_from_rfc3339` finds in a text.
pub uninterp spec fn rfc3339_instant(text: Seq<char>) -> Option<(i64, u32)>;

/// What reading an instant's RFC 3339 text gives: the instant to the millisecond where its
/// year has four digits, nothing otherwise. An instant that runs over into the next second of
/// its minute comes back as one of that second.
pub open spec fn instant_read_back(seconds: i64, nanos: u32) -> Option<(i64, u32)> {
    if FIRST_FOUR_DIGIT_SECOND <= seconds <= LAST_FOUR_DIGIT_SECOND {
        if runs_over(seconds, nanos) {
            Some(((seconds + 1) as i64, whole_millis((nanos - 1_000_000_000) as u32)))
        } else {
            Some((seconds, whole_millis(nanos)))
        }
    } else {
        None
    }
}

/// Calls `chrono::DateTime::to_rfc3339_opts` with `SecondsFormat::Millis` and a numeric
/// offset, on the instant that `DateTime::from_timestamp` makes of the seconds and that then
/// has the nanoseconds set.
///
/// Trusted: the text depends on the arguments alone; `DateTime::parse_from_rfc3339` reads it
/// back as the same instant cut off to the millisecond where the year lies in 0 to 9999, and
/// refuses it otherwise, since such a year is written with a sign. A nanosecond count of a
/// billion and more is written as the next second, which is second 60 only at the end of a
/// minute.
#[verifier::external_body]
fn format_rfc3339_millis(seconds: i64, nanos: u32) -> (r: String)
    requires
        representable(seconds, nanos),
    ensures
        r@ == rfc3339_millis(seconds, nanos),
        rfc3339_instant(r@) == instant_read_back(seconds, nanos),
{
    let second: DateTime<Utc> = DateTime::from_timestamp(seconds, 0).unwrap();
    let instant = second.naive_utc().with_nanosecond(nanos).unwrap().and_utc();
    instant.to_rfc3339_opts(SecondsFormat::Millis, false)
}

/// Calls `chrono::DateTime::parse_from_rfc3339` and takes the instant in UTC.
///
/// Trusted: the outcome depends on the text alone, and what is found is an instant.
#[verifier::external_body]
fn parse_rfc3339_instant(text: &str) -> (r: Option<(i64, u32)>)
    ensures
        r == rfc3339_instant(text@),
        r matches Some(instant) ==> representable(instant.0, instant.1),
{
    let parsed = DateTime::parse_from_rfc3339(text).ok().map(DateTime::<Utc>::from);
    parsed.map(|dt| (dt.timestamp(), dt.timestamp_subsec_nanos()))
}

/// An instant in UTC.
#[derive(Debug, Clone, Copy, PartialEq, Eq, Structural)]
pub struct UtcTime {
    seconds: i64,
    nanos: u32,
}

impl UtcTime {
    #[verifier::type_invariant]
    closed spec fn wf(self) -> bool {
        representable(self.seconds, self.nanos)
    }

    /// The seconds since the epoch and the nanoseconds within the second.
    pub closed spec fn parts(self) -> (i64, u32) {
        (self.seconds, self.nanos)
    }

    /// The RFC 3339 text of the instant, to the millisecond.
    pub open spec fn text(self) -> Seq<char> {
        rfc3339_millis(self.parts().0, self.parts().1)
    }

    /// The instant that comes back when the text is read.
    pub open spec fn read_back(self) -> Option<(i64, u32)> {
        instant_read_back(self.parts().0, self.parts().1)
    }

    /// Makes an instant, if the arguments name one.
    pub fn new(seconds: i64, nanos: u32) -> (r: Option<UtcTime>)
        ensures
            r is Some <==> representable(seconds, nanos),
            r matches Some(t) ==> t.parts() == (seconds, nanos),
    {
        if seconds < MIN_SECONDS || seconds > MAX_SECONDS || nanos >= 2_000_000_000 {
            return None;
        }
        Some(UtcTime { seconds, nanos })
    }

    /// The seconds since the epoch.
    pub fn seconds(&self) -> (r: i64)
        ensures
            r == self.parts().0,
    {
        self.seconds
    }

    /// The nanoseconds within the second.
    pub fn nanos(&self) -> (r: u32)
        ensures
            r == self.parts().1,
    {
        self.nanos
    }

    /// Writes the instant as RFC 3339 text, to the millisecond.
    pub fn to_rfc3339_millis(&self) -> (r: String)
        ensures
            r@ == self.text(),
            rfc3339_instant(r@) == self.read_back(),
    {
        proof {
            use_type_invariant(self);
        }
        format_rfc3339_millis(self.seconds, self.nanos)
    }

    /// Reads an instant from RFC 3339 text.
    pub fn parse_rfc3339(text: &str) -> (r: Option<UtcTime>)
        ensures
            opt_parts(r) == rfc3339_instant(text@),
    {
        match parse_rfc3339_instant(text) {
            Some((seconds, nanos)) => Some(UtcTime { seconds, nanos }),
            None => None,
        }
    }
}

/// The parts of an optional instant.
pub open spec fn opt_parts(t: Option<UtcTime>) -> Option<(i64, u32)> {
    match t {
        Some(t) => Some(t.parts()),
        None => None,
    }
}

/// The model of an optional instant is that of the instant exactly where there is one.
pub proof fn optional_instants_are_kept(t: Option<UtcTime>)
    ensures
        opt_parts(t) is Some <==> t is Some,
        t matches Some(instant) ==> opt_parts(t) == Some(instant.parts()),
{
}

/// Every second in the range of instants names one, with any count of nanoseconds below two
/// billion, and nothing else does.
pub proof fn instants_fill_their_range(seconds: i64, nanos: u32)
    ensures
        representable(seconds, nanos) <==> -8_334_601_228_800 <= seconds <= 8_210_266_876_799
            && nanos < 2_000_000_000,
{
}

} // verus!
