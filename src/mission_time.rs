//! The mission timestamp: a UTC instant held as plain calendar values, derived from a
//! unit record's mission date and second counters, and rendered as RFC 3339 text.
//! Calendar parsing, date stepping and formatting are chrono's.

use chrono::Datelike;
use vstd::prelude::*;

use crate::unit::DcsUnit;

verus! {

/// First year that chrono's dates can hold.
pub const MIN_YEAR: i32 = -262143;

/// Last year that chrono's dates can hold.
pub const MAX_YEAR: i32 = 262142;

/// Length of a day without leap seconds.
pub const SECONDS_PER_DAY: u64 = 86400;

/// chrono's parse error, carried only to be mapped to `TimeError::MalformedDate`.
#[verifier::external_type_specification]
#[verifier::external_body]
pub struct ExParseError(chrono::ParseError);

/// Proleptic Gregorian leap years (year 0 is one).
pub open spec fn is_leap_year(y: int) -> bool {
    (y % 4 == 0 && y % 100 != 0) || y % 400 == 0
}

pub open spec fn days_in_month(y: int, m: int) -> int {
    if m == 2 {
        if is_leap_year(y) { 29 } else { 28 }
    } else if m == 4 || m == 6 || m == 9 || m == 11 {
        30
    } else {
        31
    }
}

/// A date that exists in the proleptic Gregorian calendar, within chrono's range.
pub open spec fn is_calendar_date(y: int, m: int, d: int) -> bool {
    &&& MIN_YEAR <= y <= MAX_YEAR
    &&& 1 <= m <= 12
    &&& 1 <= d <= days_in_month(y, m)
}

/// The calendar day after `(y, m, d)`.
pub open spec fn following_day(y: int, m: int, d: int) -> (int, int, int) {
    if d < days_in_month(y, m) {
        (y, m, d + 1)
    } else if m < 12 {
        (y, m + 1, 1)
    } else {
        (y + 1, 1, 1)
    }
}

/// The UTC calendar date of the instant that chrono's `DateTime<Utc>` parser (relaxed
/// RFC 3339) reads from a text, or nothing when the text is no such instant.
pub uninterp spec fn parsed_utc_date(s: Seq<char>) -> Option<(i32, u32, u32)>;

/// Relies on chrono's `FromStr for DateTime<Utc>`: the result depends on the text alone,
/// and the date of a parsed instant is a valid calendar date in chrono's range.
#[verifier::external_body]
fn parse_utc_date(s: &str) -> (r: Result<(i32, u32, u32), chrono::ParseError>)
    ensures
        r is Ok <==> parsed_utc_date(s@) is Some,
        r matches Ok(d) ==> parsed_utc_date(s@) == Some(d) && is_calendar_date(
            d.0 as int,
            d.1 as int,
            d.2 as int,
        ),
{
    match s.parse::<chrono::DateTime<chrono::Utc>>() {
        Ok(instant) => Ok((instant.year(), instant.month(), instant.day())),
        Err(e) => Err(e),
    }
}

/// The text parsed for a mission date: the date at midnight UTC.
pub open spec fn midnight_text(date: Seq<char>) -> Seq<char> {
    date + "T00:00:00Z"@
}

/// The calendar date a mission date text names, if any.
pub open spec fn parsed_date(date: Seq<char>) -> Option<(i32, u32, u32)> {
    parsed_utc_date(midnight_text(date))
}

/// Relies on chrono's `NaiveDate::succ_opt`: the next calendar date, absent only after
/// the last representable day.
#[verifier::external_body]
fn next_date(year: i32, month: u32, day: u32) -> (r: Option<(i32, u32, u32)>)
    requires
        is_calendar_date(year as int, month as int, day as int),
    ensures
        r is None <==> (year == MAX_YEAR && month == 12 && day == 31),
        r matches Some(n) ==> (n.0 as int, n.1 as int, n.2 as int) == following_day(
            year as int,
            month as int,
            day as int,
        ),
{
    match chrono::NaiveDate::from_ymd_opt(year, month, day).unwrap().succ_opt() {
        Some(next) => Some((next.year(), next.month(), next.day())),
        None => None,
    }
}

/// Why a mission timestamp could not be derived.
#[derive(Debug, Clone, Copy, PartialEq, Eq, Structural)]
pub enum TimeError {
    /// The mission date is not a calendar date.
    MalformedDate,
    /// Start time plus elapsed time is before midnight of the mission date.
    NegativeTime,
    /// The instant lies past the last representable day.
    OutOfRange,
}

/// A UTC instant to the second.
#[derive(Debug, Clone, Copy, PartialEq, Eq, Structural)]
pub struct MissionTime {
    pub year: i32,
    pub month: u32,
    pub day: u32,
    pub hour: u32,
    pub minute: u32,
    pub second: u32,
}

impl MissionTime {
    pub open spec fn wf(&self) -> bool {
        &&& is_calendar_date(self.year as int, self.month as int, self.day as int)
        &&& self.hour < 24
        &&& self.minute < 60
        &&& self.second < 60
    }
}

/// The instant `total` seconds past midnight of `date`, with no day rollover: only the
/// seconds of the day (`total` modulo 86400) count.
pub open spec fn instant_on(date: (i32, u32, u32), total: int) -> MissionTime {
    let s = total % (SECONDS_PER_DAY as int);
    MissionTime {
        year: date.0,
        month: date.1,
        day: date.2,
        hour: (s / 3600) as u32,
        minute: ((s % 3600) / 60) as u32,
        second: (s % 60) as u32,
    }
}

/// The mission timestamp of a date as parsed and a count of seconds into that date.
pub open spec fn mission_time_of(date: Option<(i32, u32, u32)>, total: int) -> Result<
    MissionTime,
    TimeError,
> {
    match date {
        None => Err(TimeError::MalformedDate),
        Some(d) => if total < 0 {
            Err(TimeError::NegativeTime)
        } else {
            Ok(instant_on(d, total))
        },
    }
}

/// The instant sixty seconds after `t`, absent past the last representable day.
pub open spec fn minute_after(t: MissionTime) -> Option<MissionTime> {
    if t.minute < 59 {
        Some(MissionTime { minute: (t.minute + 1) as u32, ..t })
    } else if t.hour < 23 {
        Some(MissionTime { hour: (t.hour + 1) as u32, minute: 0, ..t })
    } else if t.year == MAX_YEAR && t.month == 12 && t.day == 31 {
        None
    } else {
        let n = following_day(t.year as int, t.month as int, t.day as int);
        Some(MissionTime { year: n.0 as i32, month: n.1 as u32, day: n.2 as u32, hour: 0, minute: 0, ..t })
    }
}

pub open spec fn year_length(y: int) -> int {
    if is_leap_year(y) { 366 } else { 365 }
}

/// Days from the first of January of `y` to the first of month `m`.
pub open spec fn days_before_month(y: int, m: int) -> int
    decreases m,
{
    if m <= 1 {
        0
    } else {
        days_before_month(y, m - 1) + days_in_month(y, m - 1)
    }
}

/// Days from the first of January of year 0 to the first of January of `y`.
pub open spec fn days_before_year(y: int) -> int
    decreases (if y >= 0 { y } else { -y }),
{
    if y == 0 {
        0
    } else if y > 0 {
        days_before_year(y - 1) + year_length(y - 1)
    } else {
        days_before_year(y + 1) - year_length(y)
    }
}

/// Consecutive days get consecutive numbers.
pub open spec fn day_number(y: int, m: int, d: int) -> int {
    days_before_year(y) + days_before_month(y, m) + d - 1
}

/// Seconds since midnight of the first of January of year 0.
pub open spec fn seconds_of(t: MissionTime) -> int {
    day_number(t.year as int, t.month as int, t.day as int) * 86400 + t.hour * 3600 + t.minute
        * 60 + t.second
}

/// The day after a date is numbered one more.
pub proof fn lemma_following_day_is_next(y: int, m: int, d: int)
    requires
        1 <= m <= 12,
        1 <= d <= days_in_month(y, m),
    ensures
        ({
            let n = following_day(y, m, d);
            day_number(n.0, n.1, n.2) == day_number(y, m, d) + 1
        }),
{
    if d == days_in_month(y, m) && m == 12 {
        assert(days_before_month(y, 2) == 31) by {
            reveal_with_fuel(days_before_month, 2);
        }
        assert(days_before_month(y, 5) == days_before_month(y, 2) + days_in_month(y, 2) + 31 + 30)
            by {
            reveal_with_fuel(days_before_month, 4);
        }
        assert(days_before_month(y, 8) == days_before_month(y, 5) + 31 + 30 + 31) by {
            reveal_with_fuel(days_before_month, 4);
        }
        assert(days_before_month(y, 11) == days_before_month(y, 8) + 31 + 30 + 31) by {
            reveal_with_fuel(days_before_month, 4);
        }
        assert(days_before_month(y, 12) == days_before_month(y, 11) + 30);
        assert(days_before_year(y + 1) == days_before_year(y) + year_length(y));
    }
}

/// One minute after an instant is sixty seconds later.
pub proof fn lemma_minute_after_adds_sixty_seconds(t: MissionTime)
    requires
        t.wf(),
        minute_after(t) is Some,
    ensures
        seconds_of(minute_after(t)->0) == seconds_of(t) + 60,
        minute_after(t)->0.wf(),
{
    if t.minute >= 59 && t.hour >= 23 {
        lemma_following_day_is_next(t.year as int, t.month as int, t.day as int);
    }
}

/// The instant `total` seconds into the mission date `date`.
pub fn mission_time_on(date: (i32, u32, u32), total: i64) -> (r: Result<MissionTime, TimeError>)
    requires
        is_calendar_date(date.0 as int, date.1 as int, date.2 as int),
    ensures
        r == mission_time_of(Some(date), total as int),
        r matches Ok(t) ==> t.wf(),
{
    if total < 0 {
        return Err(TimeError::NegativeTime);
    }
    let seconds: u64 = (total as u64) % SECONDS_PER_DAY;
    Ok(
        MissionTime {
            year: date.0,
            month: date.1,
            day: date.2,
            hour: (seconds / 3600) as u32,
            minute: ((seconds % 3600) / 60) as u32,
            second: (seconds % 60) as u32,
        },
    )
}

/// The instant one minute after `t`.
pub fn one_minute_later(t: &MissionTime) -> (r: Result<MissionTime, TimeError>)
    requires
        t.wf(),
    ensures
        match minute_after(*t) {
            Some(n) => r == Ok::<MissionTime, TimeError>(n) && n.wf(),
            None => r == Err::<MissionTime, TimeError>(TimeError::OutOfRange),
        },
{
    if t.minute < 59 {
        Ok(MissionTime { minute: t.minute + 1, ..*t })
    } else if t.hour < 23 {
        Ok(MissionTime { hour: t.hour + 1, minute: 0, ..*t })
    } else {
        match next_date(t.year, t.month, t.day) {
            Some(n) => Ok(MissionTime { year: n.0, month: n.1, day: n.2, hour: 0, minute: 0, ..*t }),
            None => Err(TimeError::OutOfRange),
        }
    }
}

pub open spec fn digit_char(n: int) -> char {
    seq!['0', '1', '2', '3', '4', '5', '6', '7', '8', '9'][n]
}

/// Two decimal digits of `n` (which is below 100).
pub open spec fn two_digits(n: int) -> Seq<char> {
    seq![digit_char(n / 10), digit_char(n % 10)]
}

/// Decimal digits of `n`, without leading zeroes.
pub open spec fn decimal(n: nat) -> Seq<char>
    decreases n,
{
    if n < 10 {
        seq![digit_char(n as int)]
    } else {
        decimal(n / 10).push(digit_char((n % 10) as int))
    }
}

/// `s` with zeroes in front up to `width` characters.
pub open spec fn zero_padded(s: Seq<char>, width: nat) -> Seq<char> {
    if s.len() < width {
        Seq::new((width - s.len()) as nat, |i: int| '0') + s
    } else {
        s
    }
}

/// A year as RFC 3339 writes it: four digits, or a sign and at least four digits
/// outside 0..=9999.
pub open spec fn year_text(y: int) -> Seq<char> {
    if 0 <= y <= 9999 {
        two_digits(y / 100) + two_digits(y % 100)
    } else if y > 9999 {
        seq!['+'] + decimal(y as nat)
    } else {
        seq!['-'] + zero_padded(decimal((-y) as nat), 4)
    }
}

/// `YYYY-MM-DDTHH:MM:SSZ`.
pub open spec fn rfc3339_text(t: MissionTime) -> Seq<char> {
    year_text(t.year as int) + seq!['-'] + two_digits(t.month as int) + seq!['-'] + two_digits(
        t.day as int,
    ) + seq!['T'] + two_digits(t.hour as int) + seq![':'] + two_digits(t.minute as int) + seq![
        ':',
    ] + two_digits(t.second as int) + seq!['Z']
}

/// Relies on chrono's `DateTime::<Utc>::to_rfc3339_opts` with whole seconds and a `Z`
/// suffix.
#[verifier::external_body]
fn rfc3339(t: &MissionTime) -> (r: String)
    requires
        t.wf(),
    ensures
        r@ == rfc3339_text(*t),
{
    let date = chrono::NaiveDate::from_ymd_opt(t.year, t.month, t.day).unwrap();
    let instant = date.and_hms_opt(t.hour, t.minute, t.second).unwrap().and_utc();
    instant.to_rfc3339_opts(chrono::SecondsFormat::Secs, true)
}

impl MissionTime {
    /// The instant as `YYYY-MM-DDTHH:MM:SSZ`.
    pub fn to_rfc3339(&self) -> (r: String)
        requires
            self.wf(),
        ensures
            r@ == rfc3339_text(*self),
    {
        rfc3339(self)
    }
}

/// Derives the mission timestamp of a unit record.
pub trait MissionTimeCalculator {
    spec fn mission_time(&self) -> Result<MissionTime, TimeError>;

    /// The mission date combined with start plus elapsed seconds.
    fn calculate_mission_time(&self) -> (r: Result<MissionTime, TimeError>)
        ensures
            r == self.mission_time(),
            r matches Ok(t) ==> t.wf(),
    ;
}

impl MissionTimeCalculator for DcsUnit {
    open spec fn mission_time(&self) -> Result<MissionTime, TimeError> {
        mission_time_of(
            parsed_date(self.mission_date@),
            self.mission_start_time + self.mission_time_elapsed,
        )
    }

    fn calculate_mission_time(&self) -> (r: Result<MissionTime, TimeError>) {
        let total: i64 = self.mission_start_time as i64 + self.mission_time_elapsed as i64;
        let mut text = String::from_str(self.mission_date.as_str());
        text.append("T00:00:00Z");
        match parse_utc_date(text.as_str()) {
            Ok(date) => mission_time_on(date, total),
            Err(_) => Err(TimeError::MalformedDate),
        }
    }
}

} // verus!
