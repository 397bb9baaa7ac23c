//! Instants, local calendar dates and the league's time zone.
//!
//! The league publishes its fixtures in the civil time of Europe/London. An
//! [`Instant`] is a point on the UTC time line; the calendar date on which it
//! falls in London and the instant at which a London wall-clock reading occurs
//! are computed by the time-zone database.
use vstd::prelude::*;

use chrono::Datelike;
use chrono::Timelike;

verus! {

/// Largest distance, in seconds, between an [`Instant`] and the Unix epoch.
pub const MAX_SECS: i64 = 4_000_000_000_000;

/// Largest distance from the Unix epoch, in seconds, at which a local date is computed.
pub const DATE_LIMIT: i64 = 8_000_000_000_000;

/// Nanoseconds in one second.
pub const NANOS_PER_SEC: u32 = 1_000_000_000;

/// Fixed length of a match entry, in seconds.
pub const MATCH_SECS: i64 = 3600;

/// Seconds in one minute.
pub const MINUTE_SECS: i64 = 60;

/// A calendar date of the league's local civil calendar.
#[derive(Clone, Copy, Debug, PartialEq, Eq, Structural)]
pub struct LocalDate {
    pub year: i32,
    pub month: u32,
    pub day: u32,
}

/// A wall-clock reading without a time zone.
#[derive(Clone, Copy, Debug, PartialEq, Eq, Structural)]
pub struct CivilTime {
    pub date: LocalDate,
    pub hour: u32,
    pub minute: u32,
    pub second: u32,
    pub nano: u32,
}

/// A point on the UTC time line: whole seconds since the Unix epoch and the
/// nanoseconds into that second.
#[derive(Clone, Copy, Debug, PartialEq, Eq, Structural)]
pub struct Instant {
    pub secs: i64,
    pub nanos: u32,
}

impl Instant {
    /// The instants this library computes with.
    pub open spec fn wf(self) -> bool {
        &&& -MAX_SECS <= self.secs <= MAX_SECS
        &&& self.nanos < NANOS_PER_SEC
    }

    /// `self` is strictly earlier than `other`.
    pub open spec fn lt(self, other: Instant) -> bool {
        self.secs < other.secs || (self.secs == other.secs && self.nanos < other.nanos)
    }

    /// `self` is not later than `other`.
    pub open spec fn le(self, other: Instant) -> bool {
        self.lt(other) || self == other
    }

    /// The instant with the given parts, if it is one this library computes with.
    pub fn new(secs: i64, nanos: u32) -> (r: Option<Instant>)
        ensures
            r == (if (Instant { secs, nanos }).wf() {
                Some(Instant { secs, nanos })
            } else {
                None
            }),
    {
        if -MAX_SECS <= secs && secs <= MAX_SECS && nanos < NANOS_PER_SEC {
            Some(Instant { secs, nanos })
        } else {
            None
        }
    }

    /// Whether `self` is not earlier than `other`.
    pub fn is_at_or_after(&self, other: &Instant) -> (r: bool)
        ensures
            r == other.le(*self),
    {
        self.secs > other.secs || (self.secs == other.secs && self.nanos >= other.nanos)
    }

    /// The pair by which instants are ordered.
    pub fn sort_key(&self) -> (k: (i64, u32))
        ensures
            k == (self.secs, self.nanos),
    {
        (self.secs, self.nanos)
    }

    /// The instant one match length after `self`.
    pub fn plus_match_length(&self) -> (r: Instant)
        requires
            self.wf(),
        ensures
            r.secs == self.secs + MATCH_SECS,
            r.nanos == self.nanos,
    {
        Instant { secs: self.secs + MATCH_SECS, nanos: self.nanos }
    }

    /// The London calendar date on which `self` falls.
    pub fn local_date(&self) -> (date: LocalDate)
        requires
            self.wf(),
        ensures
            date == london_date_of(self.secs),
    {
        london_date(self.secs)
    }
}

/// The London calendar date of the instant `secs` seconds after the Unix
/// epoch, as the time-zone database gives it.
pub uninterp spec fn london_date_of(secs: i64) -> LocalDate;

/// The reading that a text denotes under a `strftime`-style format, if any.
pub uninterp spec fn civil_time_of(text: Seq<char>, format: Seq<char>) -> Option<CivilTime>;

/// The one instant at which London clocks show the given reading; `None`
/// where no such instant exists or more than one does.
pub uninterp spec fn london_instant_of(reading: CivilTime) -> Option<Instant>;

/// Calls `chrono::DateTime::from_timestamp`, moves the result into
/// `chrono_tz::Europe::London` with `with_timezone` and reads `date_naive`.
/// The contract only names the date; within `DATE_LIMIT` of the epoch the
/// timestamp is inside chrono's range, so the call returns.
#[verifier::external_body]
fn london_date(secs: i64) -> (date: LocalDate)
    requires
        -DATE_LIMIT <= secs <= DATE_LIMIT,
    ensures
        date == london_date_of(secs),
{
    let local = chrono::DateTime::from_timestamp(secs, 0)
        .unwrap()
        .with_timezone(&chrono_tz::Europe::London)
        .date_naive();
    LocalDate { year: local.year(), month: local.month(), day: local.day() }
}

/// Calls `chrono::NaiveDateTime::parse_from_str`. The contract only names the
/// reading that chrono finds in the text; a text that chrono rejects gives `None`.
#[verifier::external_body]
fn parse_civil_time(text: &str, format: &str) -> (reading: Option<CivilTime>)
    ensures
        reading == civil_time_of(text@, format@),
{
    chrono::NaiveDateTime::parse_from_str(text, format).ok().map(|t| CivilTime {
        date: LocalDate { year: t.year(), month: t.month(), day: t.day() },
        hour: t.hour(),
        minute: t.minute(),
        second: t.second(),
        nano: t.nanosecond(),
    })
}

/// Calls `chrono::NaiveDateTime::and_local_timezone` with
/// `chrono_tz::Europe::London` and keeps the `single` outcome. The contract
/// only names that instant; a reading that is no date or time of day, falls
/// into a gap or occurs twice gives `None`.
#[verifier::external_body]
fn resolve_in_london(reading: CivilTime) -> (instant: Option<Instant>)
    ensures
        instant == london_instant_of(reading),
{
    chrono::NaiveDate::from_ymd_opt(reading.date.year, reading.date.month, reading.date.day)?
        .and_hms_nano_opt(reading.hour, reading.minute, reading.second, reading.nano)?
        .and_local_timezone(chrono_tz::Europe::London)
        .single()
        .map(|t| Instant { secs: t.timestamp(), nanos: t.timestamp_subsec_nanos() })
}

/// The London dates that decide a reminder: the date of `start` and the date
/// of the moment `minutes` minutes before it.
pub open spec fn reminder_dates(start: Instant, minutes: u16) -> (LocalDate, LocalDate) {
    (
        london_date_of((start.secs - minutes * MINUTE_SECS) as i64),
        london_date_of(start.secs),
    )
}

/// Computes [`reminder_dates`].
pub fn dates_around_reminder(start: &Instant, minutes: u16) -> (dates: (LocalDate, LocalDate))
    requires
        start.wf(),
    ensures
        dates == reminder_dates(*start, minutes),
{
    let lead: i64 = (minutes as i64) * MINUTE_SECS;
    (london_date(start.secs - lead), london_date(start.secs))
}

/// The instant that a text denotes as a London wall-clock reading under
/// `format`, where there is exactly one and this library computes with it.
pub open spec fn london_time_of(text: Seq<char>, format: Seq<char>) -> Option<Instant> {
    match civil_time_of(text, format) {
        Some(reading) => accepted_instant(london_instant_of(reading)),
        None => None,
    }
}

/// Keeps a resolved instant only if this library computes with it.
pub open spec fn accepted_instant(resolved: Option<Instant>) -> Option<Instant> {
    match resolved {
        Some(t) => if t.wf() {
            Some(t)
        } else {
            None
        },
        None => None,
    }
}

/// Computes [`accepted_instant`].
pub fn accept_instant(resolved: Option<Instant>) -> (r: Option<Instant>)
    ensures
        r == accepted_instant(resolved),
{
    match resolved {
        Some(t) => Instant::new(t.secs, t.nanos),
        None => None,
    }
}

/// Reads a London wall-clock time from `text` under `format`.
pub fn parse_london_time(text: &str, format: &str) -> (r: Option<Instant>)
    ensures
        r == london_time_of(text@, format@),
        r.is_some() ==> r.unwrap().wf(),
{
    match parse_civil_time(text, format) {
        Some(reading) => accept_instant(resolve_in_london(reading)),
        None => None,
    }
}

} // verus!
