//! Capture dates: a civil date and time without a zone.

use vstd::prelude::*;

verus! {

/// A civil date and time. `nano` reaches two seconds' worth within a leap
/// second.
#[derive(Debug, Clone, Copy, PartialEq, Eq, Structural)]
pub struct DateTime {
    pub year: i32,
    pub month: u32,
    pub day: u32,
    pub hour: u32,
    pub minute: u32,
    pub second: u32,
    pub nano: u32,
}

/// Whether a year of the Gregorian calendar has a 29th of February.
pub open spec fn is_leap(year: int) -> bool {
    year % 4 == 0 && (year % 100 != 0 || year % 400 == 0)
}

/// The number of days of a month.
pub open spec fn month_len(year: int, month: int) -> int {
    if month == 2 {
        if is_leap(year) {
            29
        } else {
            28
        }
    } else if month == 4 || month == 6 || month == 9 || month == 11 {
        30
    } else {
        31
    }
}

/// The days of a year that precede a month.
pub open spec fn days_before_month(year: int, month: int) -> int
    decreases month,
{
    if month <= 1 {
        0
    } else {
        days_before_month(year, month - 1) + month_len(year, month - 1)
    }
}

/// Days from the first of January 1970 to a date of the Gregorian calendar,
/// which is extended without limit in both directions.
pub open spec fn day_number(year: int, month: int, day: int) -> int {
    let y = year - 1;
    365 * y + y / 4 - y / 100 + y / 400 + days_before_month(year, month) + day - 719163
}

impl DateTime {
    /// The fields name a date and a time of day that exist.
    pub open spec fn is_civil(self) -> bool {
        &&& 1 <= self.month <= 12
        &&& 1 <= self.day <= month_len(self.year as int, self.month as int)
        &&& self.hour < 24
        &&& self.minute < 60
        &&& self.second < 60
        &&& self.nano < 2_000_000_000
    }

    /// Whole seconds since the start of 1970, leap seconds not counted.
    pub open spec fn unix_seconds(self) -> int {
        day_number(self.year as int, self.month as int, self.day as int) * 86400 + self.hour * 3600
            + self.minute * 60 + self.second
    }
}

/// The first day a timestamp can name: the first of January 262144 BCE.
pub open spec fn first_day() -> int {
    day_number(-262143, 1, 1)
}

/// The last day a timestamp can name: the last of December 262142.
pub open spec fn last_day() -> int {
    day_number(262142, 12, 31)
}

/// Whether a number of seconds since 1970 and a number of nanoseconds name a
/// representable instant. Nanoseconds beyond one second mark a leap second,
/// which only the last second of a minute can be.
pub open spec fn is_timestamp(secs: int, nanos: int) -> bool {
    &&& first_day() <= secs / 86400 <= last_day()
    &&& nanos < 2_000_000_000
    &&& nanos >= 1_000_000_000 ==> secs % 60 == 59
}

/// `chrono::DateTime::from_timestamp`, read back as UTC with `naive_local`:
/// the civil date and time that lies `secs` seconds after the start of 1970,
/// with the nanoseconds as given; `None` for a day outside the range or
/// invalid nanoseconds.
#[verifier::external_body]
pub(crate) fn from_timestamp(secs: i64, nanos: u32) -> (r: Option<DateTime>)
    ensures
        r is Some <==> is_timestamp(secs as int, nanos as int),
        r matches Some(dt) ==> dt.is_civil() && dt.unix_seconds() == secs && dt.nano == nanos,
{
    let dt = chrono::DateTime::from_timestamp(secs, nanos)?.naive_local();
    Some(
        DateTime {
            year: chrono::Datelike::year(&dt),
            month: chrono::Datelike::month(&dt),
            day: chrono::Datelike::day(&dt),
            hour: chrono::Timelike::hour(&dt),
            minute: chrono::Timelike::minute(&dt),
            second: chrono::Timelike::second(&dt),
            nano: chrono::Timelike::nanosecond(&dt),
        },
    )
}

/// What `chrono::NaiveDateTime::parse_from_str` makes of a text and a format.
pub uninterp spec fn parsed(s: Seq<char>, format: Seq<char>) -> Option<DateTime>;

/// `chrono::NaiveDateTime::parse_from_str`: the date and time that the text
/// spells in the given format, or `None` where it does not; a function of the
/// two texts. Whatever comes out exists in the calendar.
#[verifier::external_body]
pub(crate) fn parse_from_str(s: &str, format: &str) -> (r: Option<DateTime>)
    ensures
        r == parsed(s@, format@),
        r matches Some(dt) ==> dt.is_civil(),
{
    let dt = chrono::NaiveDateTime::parse_from_str(s, format).ok()?;
    Some(
        DateTime {
            year: chrono::Datelike::year(&dt),
            month: chrono::Datelike::month(&dt),
            day: chrono::Datelike::day(&dt),
            hour: chrono::Timelike::hour(&dt),
            minute: chrono::Timelike::minute(&dt),
            second: chrono::Timelike::second(&dt),
            nano: chrono::Timelike::nanosecond(&dt),
        },
    )
}

/// The date of a file that was last modified `secs` seconds and `nanos`
/// nanoseconds after the start of 1970, in UTC. Seconds beyond the signed
/// range wrap round.
pub fn mtime_date(secs: u64, nanos: u32) -> (r: Option<DateTime>)
    ensures
        r is Some <==> is_timestamp((secs as i64) as int, nanos as int),
        r matches Some(dt) ==> dt.is_civil() && dt.unix_seconds() == (secs as i64) && dt.nano
            == nanos,
{
    from_timestamp(#[verifier::truncate] (secs as i64), nanos)
}

// ---------------------------------------------------------------------------
// Laws
// ---------------------------------------------------------------------------

/// The number of days of a year.
pub open spec fn year_len(year: int) -> int {
    if is_leap(year) {
        366
    } else {
        365
    }
}

proof fn lemma_next_year(year: int)
    ensures
        day_number(year + 1, 1, 1) == day_number(year, 1, 1) + year_len(year),
{
}

proof fn lemma_later_year(a: int, b: int)
    requires
        a < b,
    ensures
        day_number(a + 1, 1, 1) <= day_number(b, 1, 1),
    decreases b - a,
{
    if a + 1 < b {
        lemma_next_year(b - 1);
        lemma_later_year(a, b - 1);
    }
}

proof fn lemma_later_month(year: int, a: int, b: int)
    requires
        1 <= a < b,
    ensures
        days_before_month(year, a) + month_len(year, a) <= days_before_month(year, b),
    decreases b - a,
{
    if a + 1 < b {
        lemma_later_month(year, a, b - 1);
    }
}

proof fn lemma_within_year(dt: DateTime)
    requires
        dt.is_civil(),
    ensures
        1 <= days_before_month(dt.year as int, dt.month as int) + dt.day <= year_len(dt.year as int),
{
    let y = dt.year as int;
    reveal_with_fuel(days_before_month, 14);
    assert(days_before_month(y, 13) == year_len(y));
    lemma_later_month(y, dt.month as int, 13);
    if dt.month > 1 {
        lemma_later_month(y, 1, dt.month as int);
    }
}

proof fn lemma_same_day(a: DateTime, b: DateTime)
    requires
        a.is_civil(),
        b.is_civil(),
        day_number(a.year as int, a.month as int, a.day as int) == day_number(
            b.year as int,
            b.month as int,
            b.day as int,
        ),
        a.year <= b.year,
    ensures
        a.year == b.year,
        a.month == b.month,
        a.day == b.day,
{
    let y = a.year as int;
    lemma_within_year(a);
    lemma_within_year(b);
    if a.year < b.year {
        lemma_next_year(y);
        lemma_later_year(y, b.year as int);
        assert(false);
    }
    if a.month < b.month {
        lemma_later_month(y, a.month as int, b.month as int);
    } else if b.month < a.month {
        lemma_later_month(y, b.month as int, a.month as int);
    }
}

/// A timestamp names one date: two dates that exist and lie equally many seconds and
/// nanoseconds after the start of 1970 are the same.
pub proof fn law_timestamp_names_one_date(a: DateTime, b: DateTime)
    requires
        a.is_civil(),
        b.is_civil(),
        a.unix_seconds() == b.unix_seconds(),
        a.nano == b.nano,
    ensures
        a == b,
{
    let da = day_number(a.year as int, a.month as int, a.day as int);
    let db = day_number(b.year as int, b.month as int, b.day as int);
    let ta = a.hour * 3600 + a.minute * 60 + a.second;
    let tb = b.hour * 3600 + b.minute * 60 + b.second;
    assert(0 <= ta < 86400 && 0 <= tb < 86400);
    assert(da == db && ta == tb);
    assert(a.hour == b.hour && a.minute == b.minute && a.second == b.second);
    if a.year <= b.year {
        lemma_same_day(a, b);
    } else {
        lemma_same_day(b, a);
    }
}

/// Days are counted one by one from the first of January 1970: the next day of a month is one
/// more, the first of a month follows the last of the month before, and the first of a year
/// follows the last of the year before. A month has its usual number of days, February one more
/// in a leap year.
pub proof fn law_days_follow_each_other(year: int, month: int, day: int)
    requires
        1 <= month <= 12,
    ensures
        day_number(1970, 1, 1) == 0,
        day_number(year, month, day + 1) == day_number(year, month, day) + 1,
        month < 12 ==> day_number(year, month + 1, 1) == day_number(
            year,
            month,
            month_len(year, month),
        ) + 1,
        day_number(year + 1, 1, 1) == day_number(year, 12, 31) + 1,
        month == 2 ==> month_len(year, month) == if year % 400 == 0 || (year % 4 == 0 && year % 100
            != 0) {
            29int
        } else {
            28int
        },
        month == 4 || month == 6 || month == 9 || month == 11 ==> month_len(year, month) == 30,
        month == 1 || month == 3 || month == 5 || month == 7 || month == 8 || month == 10 || month
            == 12 ==> month_len(year, month) == 31,
{
    reveal_with_fuel(days_before_month, 14);
    lemma_next_year(year);
}

/// Seconds are counted from the start of the day.
pub proof fn law_seconds_are_those_of_the_day(dt: DateTime)
    ensures
        dt.unix_seconds() == day_number(dt.year as int, dt.month as int, dt.day as int) * (24 * 60
            * 60) + (dt.hour * 60 + dt.minute) * 60 + dt.second,
{
}

} // verus!
