//! Points in time as plain integers, and the questions about the local time
//! zone and calendar that only the date library can answer.

use chrono::TimeZone;
use std::fmt::Write;
use vstd::prelude::*;

verus! {

/// Seconds in an hour.
pub const HOUR_SECONDS: i64 = 3_600;

/// Seconds in a day of wall-clock time.
pub const DAY_SECONDS: i64 = 86_400;

/// Nanoseconds in a second; a larger sub-second part marks a leap second.
pub const SECOND_NANOS: u32 = 1_000_000_000;

/// An instant on the UTC time line: whole seconds since 1970-01-01T00:00:00Z
/// and the nanoseconds into that second.
#[derive(Debug, Clone, Copy, PartialEq, Eq, Structural)]
pub struct UtcInstant {
    pub secs: i64,
    pub nanos: u32,
}

/// A calendar date as the provider writes it for all-day events.
#[derive(Debug, Clone, Copy, PartialEq, Eq, Structural)]
pub struct CivilDate {
    pub year: i32,
    pub month: u32,
    pub day: u32,
}

/// An instant together with the offset of the display time zone at that
/// instant (seconds east of UTC).
#[derive(Debug, Clone, Copy, PartialEq, Eq, Structural)]
pub struct LocalTime {
    pub utc_secs: i64,
    pub nanos: u32,
    pub offset_secs: i32,
}

/// The longest shift that the date library takes, in seconds.
pub const MAX_SHIFT_SECONDS: i64 = 9_223_372_036_854_775;

/// Whether the date library can represent an instant: `DateTime::from_timestamp`
/// answers for it. It cannot for years beyond its calendar, nor for a
/// sub-second part that is no part of a second.
pub uninterp spec fn is_representable(utc_secs: int, nanos: int) -> bool;

impl UtcInstant {
    /// A single number that orders instants: earlier instants have smaller
    /// keys, equal instants equal keys.
    pub open spec fn key(&self) -> int {
        self.secs * 0x1_0000_0000 + self.nanos
    }

    /// Whether the date library can represent this instant.
    pub open spec fn representable(&self) -> bool {
        is_representable(self.secs as int, self.nanos as int)
    }

    /// The second of the instant `seconds` seconds later (earlier for a
    /// negative number). From inside a leap second, going forward counts
    /// from the second before it and going back from the second after it.
    pub open spec fn shifted_secs(&self, seconds: int) -> int {
        if self.nanos >= SECOND_NANOS && seconds < 0 {
            self.secs + 1 + seconds
        } else {
            self.secs + seconds
        }
    }

    /// The sub-second part of the instant `seconds` seconds later: as it
    /// is, but out of the leap second if the instant moves at all.
    pub open spec fn shifted_nanos(&self, seconds: int) -> int {
        if self.nanos >= SECOND_NANOS && seconds != 0 {
            self.nanos - SECOND_NANOS
        } else {
            self.nanos as int
        }
    }

    /// Whether `then` is the instant `seconds` seconds after this one.
    pub open spec fn is_shifted(&self, seconds: int, then: UtcInstant) -> bool {
        &&& then.secs == self.shifted_secs(seconds)
        &&& then.nanos == self.shifted_nanos(seconds)
    }

    /// Whether the instant `seconds` seconds after this one can be had:
    /// both are instants that the date library can represent.
    pub open spec fn can_shift(&self, seconds: int) -> bool {
        &&& self.representable()
        &&& i64::MIN <= self.shifted_secs(seconds) <= i64::MAX
        &&& is_representable(self.shifted_secs(seconds), self.shifted_nanos(seconds))
    }

    /// Whether this instant is strictly earlier than `other`.
    pub fn is_before(&self, other: &UtcInstant) -> (earlier: bool)
        ensures
            earlier == (self.key() < other.key()),
    {
        self.secs < other.secs || (self.secs == other.secs && self.nanos < other.nanos)
    }
}

/// The instant a number of seconds after another, with chrono's
/// `DateTime::checked_add_signed` and `TimeDelta::try_seconds`. The shift
/// is within what `try_seconds` takes. chrono answers exactly where it can
/// represent both instants. The sub-second part stays, except that an
/// instant inside a leap second leaves it when it moves: forward from the
/// second before the leap second, back from the second after it.
#[verifier::external_body]
pub(crate) fn instant_after(start: UtcInstant, seconds: i64) -> (after: Option<UtcInstant>)
    requires
        -MAX_SHIFT_SECONDS <= seconds <= MAX_SHIFT_SECONDS,
    ensures
        after matches Some(then) ==> start.is_shifted(seconds as int, then),
        after is Some <==> start.can_shift(seconds as int),
{
    let shift = chrono::TimeDelta::try_seconds(seconds)?;
    let from = chrono::DateTime::from_timestamp(start.secs, start.nanos)?;
    let then = from.checked_add_signed(shift)?;
    Some(UtcInstant { secs: then.timestamp(), nanos: then.timestamp_subsec_nanos() })
}

/// The time span for which events are fetched.
#[derive(Debug, Clone, Copy, PartialEq, Eq, Structural)]
pub struct FetchWindow {
    pub time_min: UtcInstant,
    pub time_max: UtcInstant,
}

/// Whether the span from `now` to `days_ahead` days later can be had: the
/// days are a shift that the date library takes, and it can represent both
/// ends.
pub open spec fn window_fits(now: UtcInstant, days_ahead: int) -> bool {
    &&& -MAX_SHIFT_SECONDS <= days_ahead * DAY_SECONDS <= MAX_SHIFT_SECONDS
    &&& now.can_shift(days_ahead * DAY_SECONDS)
}

/// The span from `now` to `days_ahead` days of 86 400 seconds later, where
/// it can be had. No days make a window of a single instant; a negative
/// number of days makes a window that ends before it starts.
pub fn fetch_window(now: UtcInstant, days_ahead: i64) -> (window: Option<FetchWindow>)
    ensures
        window is Some <==> window_fits(now, days_ahead as int),
        window matches Some(span) ==> span.time_min == now && now.is_shifted(
            days_ahead * DAY_SECONDS,
            span.time_max,
        ),
{
    let seconds = match days_ahead.checked_mul(DAY_SECONDS) {
        Some(seconds) => seconds,
        None => {
            return None;
        },
    };
    if seconds < -MAX_SHIFT_SECONDS || seconds > MAX_SHIFT_SECONDS {
        return None;
    }
    match instant_after(now, seconds) {
        Some(time_max) => Some(FetchWindow { time_min: now, time_max }),
        None => None,
    }
}

impl LocalTime {
    /// The instant, without the offset.
    pub open spec fn instant(&self) -> UtcInstant {
        UtcInstant { secs: self.utc_secs, nanos: self.nanos }
    }

    /// The ordering key of the instant.
    pub open spec fn key(&self) -> int {
        self.instant().key()
    }

    /// What a clock on the wall of the display time zone shows, as seconds
    /// since 1970-01-01T00:00:00 in that zone.
    pub open spec fn wall_clock(&self) -> int {
        self.utc_secs + self.offset_secs
    }

    /// Whether the offset is one that a time zone can have: strictly less
    /// than a day either way.
    pub open spec fn offset_in_range(&self) -> bool {
        -DAY_SECONDS < self.offset_secs < DAY_SECONDS
    }

    /// The day that a calendar on the wall of the display time zone shows,
    /// counted from 1970-01-01.
    pub open spec fn local_day(&self) -> int {
        self.wall_clock() / (DAY_SECONDS as int)
    }

    /// The day of the display time zone on which this time falls.
    pub fn day_number(&self) -> (day: i64)
        ensures
            day == self.local_day(),
    {
        let wall: i128 = self.utc_secs as i128 + self.offset_secs as i128;
        let day: i128 = if wall >= 0 {
            wall / 86_400
        } else {
            -((86_399 - wall) / 86_400)
        };
        day as i64
    }

    /// Whether this time is strictly earlier than `other`; offsets play no
    /// part.
    pub fn is_before(&self, other: &LocalTime) -> (earlier: bool)
        ensures
            earlier == (self.key() < other.key()),
    {
        self.utc_secs < other.utc_secs || (self.utc_secs == other.utc_secs && self.nanos
            < other.nanos)
    }
}

/// The wall-clock second count of midnight at the start of a calendar date,
/// or `None` for a date that does not exist or lies outside the range of
/// years that the calendar covers.
pub uninterp spec fn midnight_of(year: int, month: int, day: int) -> Option<int>;

/// The text that a time renders to under a `strftime`-like pattern, or `None`
/// where the time cannot be represented or the pattern is not valid.
pub uninterp spec fn rendered_time(
    utc_secs: int,
    nanos: int,
    offset_secs: int,
    pattern: Seq<char>,
) -> Option<Seq<char>>;

/// Asks chrono for the offset of the machine's time zone at a UTC instant
/// (`DateTime::from_timestamp` and `DateTime::with_timezone(&Local)`).
/// Nothing is claimed about which offset comes back, only that an offset
/// is less than a day. An offset comes back exactly where chrono can
/// represent the instant: every instant has an offset.
#[verifier::external_body]
pub(crate) fn local_offset_at(utc_secs: i64, nanos: u32) -> (offset: Option<i32>)
    ensures
        offset matches Some(o) ==> -DAY_SECONDS < o < DAY_SECONDS,
        offset is Some <==> is_representable(utc_secs as int, nanos as int),
{
    let utc = chrono::DateTime::from_timestamp(utc_secs, nanos)?;
    Some(utc.with_timezone(&chrono::Local).offset().local_minus_utc())
}

/// Asks chrono which offset the machine's time zone has when its wall clock
/// shows the given time (`TimeZone::from_local_datetime` on `Local`).
/// `None` means that the wall clock never shows that time, shows it twice,
/// or that chrono cannot represent it. Only the range of an offset is
/// claimed.
#[verifier::external_body]
pub(crate) fn local_offset_for_wall_clock(wall_secs: i64) -> (offset: Option<i32>)
    ensures
        offset matches Some(o) ==> -DAY_SECONDS < o < DAY_SECONDS,
{
    let naive = chrono::DateTime::from_timestamp(wall_secs, 0)?.naive_utc();
    let local = chrono::Local.from_local_datetime(&naive).single()?;
    Some(local.offset().local_minus_utc())
}

/// Asks chrono for midnight at the start of a date (`NaiveDate::from_ymd_opt`
/// and `NaiveDate::and_hms_opt(0, 0, 0)`), counted in seconds since
/// 1970-01-01T00:00:00. The result is a function of the date alone and is
/// known only by its name, `midnight_of`; being a midnight, it is a whole
/// number of days.
#[verifier::external_body]
pub(crate) fn midnight_seconds(date: CivilDate) -> (secs: Option<i64>)
    ensures
        secs matches Some(s) ==> midnight_of(date.year as int, date.month as int, date.day as int)
            == Some(s as int) && s % DAY_SECONDS == 0,
        secs is None ==> midnight_of(date.year as int, date.month as int, date.day as int)
            is None,
{
    let day = chrono::NaiveDate::from_ymd_opt(date.year, date.month, date.day)?;
    Some(day.and_hms_opt(0, 0, 0)?.and_utc().timestamp())
}

/// Renders a time with chrono's `DateTime::format` in the time's own offset.
/// The text is a function of the time and the pattern alone and is known
/// only by its name, `rendered_time`; `None` comes back where chrono cannot
/// represent the time or rejects the pattern.
#[verifier::external_body]
pub(crate) fn render_time(time: &LocalTime, pattern: &str) -> (text: Option<String>)
    ensures
        text matches Some(t) ==> rendered_time(
            time.utc_secs as int,
            time.nanos as int,
            time.offset_secs as int,
            pattern@,
        ) == Some(t@),
        text is None ==> rendered_time(
            time.utc_secs as int,
            time.nanos as int,
            time.offset_secs as int,
            pattern@,
        ) is None,
{
    let zone = chrono::FixedOffset::east_opt(time.offset_secs)?;
    let utc = chrono::DateTime::from_timestamp(time.utc_secs, time.nanos)?;
    let mut text = String::new();
    write!(text, "{}", utc.with_timezone(&zone).format(pattern)).ok()?;
    Some(text)
}

} // verus!
