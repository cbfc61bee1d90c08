//! Wall-clock time of day, to the minute.
//!
//! The arithmetic, parsing and formatting are done by `chrono`; this module
//! holds a time as its minute of the day and states what each operation
//! returns.

use chrono::Timelike;
use vstd::prelude::*;

verus! {

/// Number of minutes in a day.
pub const MINUTES_PER_DAY: u32 = 1440;

/// A time of day with minute precision.
#[derive(Clone, Copy, Debug, PartialEq, Eq)]
pub struct TimeOfDay {
    minutes: u32,
}

impl View for TimeOfDay {
    type V = int;

    /// The minute of the day, from 0 (midnight) up to 1439.
    closed spec fn view(&self) -> int {
        self.minutes as int
    }
}

/// What `chrono` reads out of a text in the form hours, colon, minutes:
/// the hour and the minute, or nothing where it rejects the text.
pub uninterp spec fn parsed_clock(text: Seq<char>) -> Option<(u32, u32)>;

/// The minute of the day that a text denotes, if any.
pub open spec fn parsed_minute_of_day(text: Seq<char>) -> Option<int> {
    match parsed_clock(text) {
        Some((hour, minute)) => Some(hour * 60 + minute),
        None => None,
    }
}

/// Two decimal digits for a number below one hundred.
pub open spec fn two_digits(n: int) -> Seq<char> {
    seq![crate::text::digit_char(n / 10), crate::text::digit_char(n % 10)]
}

/// The text of a minute of the day: two digits of hours, a colon and two
/// digits of minutes.
pub open spec fn clock_text(minute_of_day: int) -> Seq<char> {
    two_digits(minute_of_day / 60) + seq![':'] + two_digits(minute_of_day % 60)
}

/// The minute of the day reached `minutes` after `from`, wrapping at midnight.
pub open spec fn wrap_forward(from: int, minutes: int) -> int {
    (from + minutes) % 1440
}

/// The whole minutes from `start` to `end`, or zero where `end` is earlier.
pub open spec fn minutes_span(start: int, end: int) -> int {
    if end >= start {
        end - start
    } else {
        0
    }
}

/// Calls `chrono::NaiveTime::parse_from_str` with the format `%H:%M` and
/// takes the hour and minute of the time it returns. The outcome is taken to
/// depend on the text alone; an hour is below 24 and a minute below 60, as
/// `Timelike::hour` and `Timelike::minute` document.
#[verifier::external_body]
fn chrono_parse(text: &str) -> (parsed: Option<(u32, u32)>)
    ensures
        parsed == parsed_clock(text@),
        parsed matches Some((hour, minute)) ==> hour < 24 && minute < 60,
{
    match chrono::NaiveTime::parse_from_str(text, "%H:%M") {
        Ok(time) => Some((time.hour(), time.minute())),
        Err(_) => None,
    }
}

/// Adds a `chrono::Duration` of whole minutes to the `chrono::NaiveTime`
/// `hour:minute:00`. The addition wraps around midnight and ignores whole
/// days, so the result is the minute of the day modulo 1440.
#[verifier::external_body]
fn chrono_plus(hour: u32, minute: u32, minutes: u32) -> (moved: (u32, u32))
    requires
        hour < 24,
        minute < 60,
    ensures
        moved.0 < 24,
        moved.1 < 60,
        moved.0 * 60 + moved.1 == (hour * 60 + minute + minutes) % 1440,
{
    let start = chrono::NaiveTime::from_hms_opt(hour, minute, 0).unwrap();
    let moved = start + chrono::Duration::minutes(i64::from(minutes));
    (moved.hour(), moved.minute())
}

/// Calls `chrono::NaiveTime::signed_duration_since` on two times with zero
/// seconds and takes `num_minutes` of the difference: the signed number of
/// minutes from the first time to the second.
#[verifier::external_body]
fn chrono_between(start_hour: u32, start_minute: u32, end_hour: u32, end_minute: u32) -> (minutes:
    i64)
    requires
        start_hour < 24,
        start_minute < 60,
        end_hour < 24,
        end_minute < 60,
    ensures
        minutes == (end_hour * 60 + end_minute) - (start_hour * 60 + start_minute),
{
    let start = chrono::NaiveTime::from_hms_opt(start_hour, start_minute, 0).unwrap();
    let end = chrono::NaiveTime::from_hms_opt(end_hour, end_minute, 0).unwrap();
    end.signed_duration_since(start).num_minutes()
}

/// Formats the `chrono::NaiveTime` `hour:minute:00` with `%H:%M`: the hour
/// and the minute, each as two digits with a leading zero, around a colon.
#[verifier::external_body]
fn chrono_format(hour: u32, minute: u32) -> (text: String)
    requires
        hour < 24,
        minute < 60,
    ensures
        text@ == two_digits(hour as int) + seq![':'] + two_digits(minute as int),
{
    chrono::NaiveTime::from_hms_opt(hour, minute, 0).unwrap().format("%H:%M").to_string()
}

impl TimeOfDay {
    #[verifier::type_invariant]
    spec fn in_day(self) -> bool {
        self.minutes < 1440
    }

    /// The time `hour:minute`, where that is a time of day.
    pub fn new(hour: u32, minute: u32) -> (time: Option<TimeOfDay>)
        ensures
            time is Some <==> hour < 24 && minute < 60,
            time matches Some(t) ==> t@ == hour * 60 + minute,
    {
        if hour < 24 && minute < 60 {
            Some(TimeOfDay { minutes: hour * 60 + minute })
        } else {
            None
        }
    }

    /// Eight o'clock in the morning, the start of a day that names none.
    pub fn default_start() -> (time: TimeOfDay)
        ensures
            time@ == 480,
    {
        TimeOfDay { minutes: 480 }
    }

    /// The minute of the day.
    pub fn minute_of_day(&self) -> (minutes: u32)
        ensures
            minutes == self@,
            minutes < MINUTES_PER_DAY,
    {
        proof {
            use_type_invariant(self);
        }
        self.minutes
    }

    /// The hour, from 0 to 23.
    pub fn hour(&self) -> (hour: u32)
        ensures
            hour == self@ / 60,
            hour < 24,
    {
        proof {
            use_type_invariant(self);
        }
        self.minutes / 60
    }

    /// The minute within the hour, from 0 to 59.
    pub fn minute(&self) -> (minute: u32)
        ensures
            minute == self@ % 60,
            minute < 60,
    {
        self.minutes % 60
    }

    /// Turns an hour and a minute that were read out of a text into a time.
    pub fn from_parsed(parsed: Option<(u32, u32)>) -> (time: Option<TimeOfDay>)
        ensures
            time is Some <==> (parsed matches Some((hour, minute)) && hour < 24 && minute < 60),
            time matches Some(t) ==> parsed matches Some((hour, minute)) && t@ == hour * 60
                + minute,
    {
        match parsed {
            Some((hour, minute)) => TimeOfDay::new(hour, minute),
            None => None,
        }
    }

    /// Reads a time written as hours, colon, minutes.
    pub fn parse(text: &str) -> (time: Option<TimeOfDay>)
        ensures
            time is Some <==> parsed_minute_of_day(text@) is Some,
            time matches Some(t) ==> Some(t@) == parsed_minute_of_day(text@),
    {
        TimeOfDay::from_parsed(chrono_parse(text))
    }

    /// Reads a time, or gives `fallback` where the text denotes none.
    pub fn parse_or(text: &str, fallback: TimeOfDay) -> (time: TimeOfDay)
        ensures
            time@ == match parsed_minute_of_day(text@) {
                Some(minute) => minute,
                None => fallback@,
            },
    {
        match TimeOfDay::parse(text) {
            Some(time) => time,
            None => fallback,
        }
    }

    /// The time `minutes` later, wrapping around midnight.
    pub fn plus_minutes(&self, minutes: u32) -> (later: TimeOfDay)
        ensures
            later@ == wrap_forward(self@, minutes as int),
    {
        let moved = chrono_plus(self.hour(), self.minute(), minutes);
        proof {
            use_type_invariant(self);
        }
        TimeOfDay { minutes: moved.0 * 60 + moved.1 }
    }

    /// The whole minutes from this time to `end`, zero where `end` is earlier.
    pub fn minutes_until(&self, end: &TimeOfDay) -> (minutes: u32)
        ensures
            minutes == minutes_span(self@, end@),
    {
        let signed = chrono_between(self.hour(), self.minute(), end.hour(), end.minute());
        proof {
            use_type_invariant(self);
            use_type_invariant(end);
        }
        if signed > 0 {
            signed as u32
        } else {
            0
        }
    }

    /// The time as text: hours and minutes, two digits each, around a colon.
    pub fn to_text(&self) -> (text: String)
        ensures
            text@ == clock_text(self@),
    {
        chrono_format(self.hour(), self.minute())
    }
}

} // verus!
