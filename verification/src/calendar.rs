use vstd::prelude::*;

use chrono::Datelike;

use crate::status::decimal;

verus! {

/// A calendar date as (year, month, day).
pub type CalendarDate = (i32, u32, u32);

/// The earliest and latest years chrono's `NaiveDate` can hold.
pub const MIN_YEAR: i32 = -262143;
pub const MAX_YEAR: i32 = 262142;

pub open spec fn is_leap_year(year: int) -> bool {
    year % 4 == 0 && (year % 100 != 0 || year % 400 == 0)
}

pub open spec fn days_in_month(year: int, month: int) -> int {
    if month == 2 {
        if is_leap_year(year) {
            29
        } else {
            28
        }
    } else if month == 4 || month == 6 || month == 9 || month == 11 {
        30
    } else {
        31
    }
}

/// A day that exists in the proleptic Gregorian calendar, within the years
/// that chrono's `NaiveDate` can hold.
pub open spec fn is_calendar_date(date: CalendarDate) -> bool {
    &&& MIN_YEAR <= date.0 <= MAX_YEAR
    &&& 1 <= date.1 <= 12
    &&& 1 <= date.2 <= days_in_month(date.0 as int, date.1 as int)
}

/// Chronological order of dates: by year, then month, then day.
pub open spec fn date_before(a: CalendarDate, b: CalendarDate) -> bool {
    a.0 < b.0 || (a.0 == b.0 && (a.1 < b.1 || (a.1 == b.1 && a.2 < b.2)))
}

/// The date that chrono's `NaiveDate::parse_from_str` reads from `text` with
/// the strftime pattern `pattern`, as (year, month, day); `None` where it
/// reports an error.
pub uninterp spec fn parsed_date(text: Seq<char>, pattern: Seq<char>) -> Option<CalendarDate>;

/// `n` in decimal, with leading zeros up to `width` digits.
pub open spec fn zero_padded(n: nat, width: nat) -> Seq<char> {
    let digits = decimal(n);
    if digits.len() < width {
        Seq::new((width - digits.len()) as nat, |i: int| '0') + digits
    } else {
        digits
    }
}

/// The year as strftime's `%Y` writes it: four digits at least, with a sign
/// before years outside 0 to 9999.
pub open spec fn year_text(year: int) -> Seq<char> {
    if 0 <= year <= 9999 {
        zero_padded(year as nat, 4)
    } else if year < 0 {
        "-"@ + zero_padded((-year) as nat, 4)
    } else {
        "+"@ + zero_padded(year as nat, 4)
    }
}

/// The text of a date in one of the library's date patterns, each field
/// zero-padded: month/day/year for `%m/%d/%Y`, year-month-day for
/// `%Y-%m-%d`, and day.month.year otherwise.
pub open spec fn formatted_date(date: CalendarDate, pattern: Seq<char>) -> Seq<char> {
    let day = zero_padded(date.2 as nat, 2);
    let month = zero_padded(date.1 as nat, 2);
    let year = year_text(date.0 as int);
    if pattern == "%m/%d/%Y"@ {
        month + "/"@ + day + "/"@ + year
    } else if pattern == "%Y-%m-%d"@ {
        year + "-"@ + month + "-"@ + day
    } else {
        day + "."@ + month + "."@ + year
    }
}

/// The strftime patterns the library formats dates with: day.month.year,
/// month/day/year and year-month-day.
pub open spec fn is_date_pattern(pattern: Seq<char>) -> bool {
    pattern == "%d.%m.%Y"@ || pattern == "%m/%d/%Y"@ || pattern == "%Y-%m-%d"@
}

/// Reads a date with chrono's `NaiveDate::parse_from_str`, and hands back its
/// year, month and day (chrono's `Datelike` accessors). Trusted to be a
/// function of the text and the pattern, and, as chrono's documentation says
/// of every `NaiveDate`, to be a day that exists in its calendar.
#[verifier::external_body]
pub(crate) fn parse_date(text: &str, pattern: &str) -> (date: Option<CalendarDate>)
    ensures
        date == parsed_date(text@, pattern@),
        date matches Some(d) ==> is_calendar_date(d),
{
    match chrono::NaiveDate::parse_from_str(text, pattern) {
        Ok(date) => Some((date.year(), date.month(), date.day())),
        Err(_) => None,
    }
}

/// Formats a date with chrono's `NaiveDate::format`, after rebuilding chrono's
/// date from its parts with `NaiveDate::from_ymd_opt`, which chrono documents
/// to succeed for every day of its calendar. The patterns admitted are valid
/// strftime patterns, on which chrono's formatting does not fail. Trusted to
/// write what chrono's source writes for `%d`, `%m` and `%Y` with the default
/// zero padding: two-digit day and month, and the year as `year_text` says.
#[verifier::external_body]
pub(crate) fn format_date(date: CalendarDate, pattern: &str) -> (text: String)
    requires
        is_calendar_date(date),
        is_date_pattern(pattern@),
    ensures
        text@ == formatted_date(date, pattern@),
{
    let (year, month, day) = date;
    chrono::NaiveDate::from_ymd_opt(year, month, day).unwrap().format(pattern).to_string()
}

/// The number of whole seconds since the Unix epoch that std's
/// `SystemTime::now` reads, with `duration_since(UNIX_EPOCH)`; `None` where
/// the clock reads a time before the epoch. It depends on the clock, so
/// nothing is trusted of it.
#[verifier::external_body]
fn unix_seconds() -> (seconds: Option<u64>) {
    match std::time::SystemTime::now().duration_since(std::time::UNIX_EPOCH) {
        Ok(elapsed) => Some(elapsed.as_secs()),
        Err(_) => None,
    }
}

/// The UTC day that chrono's `DateTime::from_timestamp` places `seconds`
/// after the Unix epoch in, as (year, month, day); `None` where chrono reports
/// the time as out of its range.
pub uninterp spec fn utc_day(seconds: i64) -> Option<CalendarDate>;

/// The UTC day of a Unix time, with chrono's `DateTime::from_timestamp` and
/// `DateTime::date_naive`. Trusted to be a function of `seconds` and, as
/// chrono's documentation says of every `NaiveDate`, a day that exists in its
/// calendar.
#[verifier::external_body]
fn utc_date(seconds: i64) -> (date: Option<CalendarDate>)
    ensures
        date == utc_day(seconds),
        date matches Some(d) ==> is_calendar_date(d),
{
    match chrono::DateTime::from_timestamp(seconds, 0) {
        Some(time) => {
            let day = time.date_naive();
            Some((day.year(), day.month(), day.day()))
        },
        None => None,
    }
}

/// Whether `day` is what reading the clock may give: no day at all, or a day
/// of chrono's calendar.
pub open spec fn clock_day(day: Option<CalendarDate>) -> bool {
    day matches Some(d) ==> is_calendar_date(d)
}

/// Today's date, as the UTC day of the system clock; `None` where the clock
/// reads a time before the Unix epoch or beyond chrono's range. chrono's
/// local-time lookup panics where it cannot select a local time type, so the
/// day is taken in UTC, whose lookup cannot fail.
pub(crate) fn today() -> (day: Option<CalendarDate>)
    ensures
        clock_day(day),
{
    match unix_seconds() {
        Some(seconds) => {
            if seconds <= 9223372036854775807u64 {
                utc_date(seconds as i64)
            } else {
                None
            }
        },
        None => None,
    }
}

/// The days of `year` before the first of `month`.
pub open spec fn days_before_month(year: int, month: int) -> int
    decreases month,
{
    if month <= 1 {
        0
    } else {
        days_before_month(year, month - 1) + days_in_month(year, month - 1)
    }
}

/// The number of days in `year`.
pub open spec fn year_length(year: int) -> int {
    if is_leap_year(year) {
        366
    } else {
        365
    }
}

/// The days from 1 January of year 0 to 1 January of `year` (negative for
/// earlier years).
pub open spec fn year_start(year: int) -> int
    decreases (if year < 0 {
        -year
    } else {
        year
    }),
{
    if year == 0 {
        0
    } else if year > 0 {
        year_start(year - 1) + year_length(year - 1)
    } else {
        year_start(year + 1) - year_length(year)
    }
}

/// The day number of a date: days since 1 January of year 0, which is day 1.
pub open spec fn day_number(date: CalendarDate) -> int {
    year_start(date.0 as int) + days_before_month(date.0 as int, date.1 as int) + date.2
}

proof fn lemma_months_follow(year: int, m1: int, m2: int)
    requires
        1 <= m1 < m2 <= 13,
    ensures
        days_before_month(year, m1) + days_in_month(year, m1) <= days_before_month(year, m2),
    decreases m2,
{
    if m2 > m1 + 1 {
        lemma_months_follow(year, m1, m2 - 1);
    }
}

proof fn lemma_months_start_after_zero(year: int, month: int)
    ensures
        days_before_month(year, month) >= 0,
    decreases month,
{
    if month > 1 {
        lemma_months_start_after_zero(year, month - 1);
    }
}

proof fn lemma_year_holds_its_days(year: int, month: int)
    requires
        1 <= month <= 12,
    ensures
        days_before_month(year, month) + days_in_month(year, month) <= year_length(year),
        days_before_month(year, month) >= 0,
{
    lemma_months_start_after_zero(year, month);
    reveal_with_fuel(days_before_month, 13);
    if month < 12 {
        lemma_months_follow(year, month, 12);
    }
}

proof fn lemma_years_follow(y1: int, y2: int)
    requires
        y1 < y2,
    ensures
        year_start(y1) + year_length(y1) <= year_start(y2),
    decreases y2 - y1,
{
    if y2 > y1 + 1 {
        lemma_years_follow(y1, y2 - 1);
        lemma_years_follow(y2 - 1, y2);
    } else if y1 < 0 {
        assert(year_start(y1) == year_start(y1 + 1) - year_length(y1));
    }
}

/// `date_before` is chronological order: for days of the calendar, `a` comes
/// before `b` exactly when its day number, the count of days from a fixed
/// first day, is smaller. So within one year a date in an earlier month comes
/// first whatever the days, and within one month the earlier day comes first.
pub proof fn lemma_date_before_is_chronological(a: CalendarDate, b: CalendarDate)
    requires
        is_calendar_date(a),
        is_calendar_date(b),
    ensures
        date_before(a, b) <==> day_number(a) < day_number(b),
        a.0 == b.0 && a.1 < b.1 ==> date_before(a, b),
        a.0 == b.0 && a.1 == b.1 && a.2 < b.2 ==> date_before(a, b),
        day_number(a) == day_number(b) <==> a == b,
{
    let (ya, ma, da) = (a.0 as int, a.1 as int, a.2 as int);
    let (yb, mb, db) = (b.0 as int, b.1 as int, b.2 as int);
    lemma_year_holds_its_days(ya, ma);
    lemma_year_holds_its_days(yb, mb);
    if ya < yb {
        lemma_years_follow(ya, yb);
    } else if yb < ya {
        lemma_years_follow(yb, ya);
    } else if ma < mb {
        lemma_months_follow(ya, ma, mb);
    } else if mb < ma {
        lemma_months_follow(ya, mb, ma);
    } else {
        assert(day_number(a) - day_number(b) == da - db);
    }
    if day_number(a) == day_number(b) {
        assert(ya == yb && ma == mb && da == db);
        assert(a == b);
    }
}

/// Whether `a` falls before `b`.
pub fn is_before(a: CalendarDate, b: CalendarDate) -> (before: bool)
    ensures
        before == date_before(a, b),
{
    a.0 < b.0 || (a.0 == b.0 && (a.1 < b.1 || (a.1 == b.1 && a.2 < b.2)))
}

} // verus!
